use systemd_compat::notify::notify_socket_path;
use systemd_compat::notify::CustomVariable;
use systemd_compat::notify::Message;
use systemd_compat::notify::Notification;
use systemd_compat::notify::NotifyError;
use systemd_compat::socket::SocketError;

#[test]
fn empty_message_renders_to_empty_text() {
    assert_eq!(Message::new().render(), "");
}

#[test]
fn ready_renders_to_one_line() {
    let m = Message::from_notification(Notification::Ready);
    assert_eq!(m.render(), "READY=1\n");
}

#[test]
fn status_and_errno_render_in_order() {
    let mut m = Message::new();
    m.push(Notification::Status(String::from("hello")));
    m.push(Notification::Errno(2));
    assert_eq!(m.render(), "STATUS=hello\nERRNO=2\n");
}

#[test]
fn rendering_twice_yields_identical_text() {
    let mut m = Message::new();
    m.push(Notification::Reloading);
    m.push(Notification::Status(String::from("shutting down")));
    assert_eq!(m.render(), m.render());
}

#[test]
fn every_fixed_kind_renders_its_line() {
    assert_eq!(Notification::Ready.render_line(), "READY=1");
    assert_eq!(Notification::Reloading.render_line(), "RELOADING=1");
    assert_eq!(Notification::Stopping.render_line(), "STOPPING=1");
    assert_eq!(Notification::WatchdogOk.render_line(), "WATCHDOG=1");
    assert_eq!(Notification::WatchdogTrigger.render_line(), "WATCHDOG=trigger");
}

#[test]
fn negative_errno_renders_signed() {
    let m = Message::from_notification(Notification::Errno(-2));
    assert_eq!(m.render(), "ERRNO=-2\n");
}

#[test]
fn custom_variable_renders_with_prefix() {
    let cv = CustomVariable::new(String::from("key"), String::from("value"));
    let m = Message::from_notification(Notification::Custom(cv));
    assert_eq!(m.render(), "X-key=value\n");
}

#[test]
fn insertion_order_becomes_line_order() {
    let m = Message::from_notifications(vec![
        Notification::Reloading,
        Notification::Ready,
        Notification::Stopping,
    ]);
    assert_eq!(m.render(), "RELOADING=1\nREADY=1\nSTOPPING=1\n");
}

#[test]
fn notify_path_resolves_from_value() {
    let path = notify_socket_path(Some(String::from("/run/notify"))).unwrap();
    assert_eq!(path, "/run/notify");
}

#[test]
fn notify_path_missing_is_reported() {
    let err = notify_socket_path(None).unwrap_err();
    assert!(matches!(err, NotifyError::MissingVar("NOTIFY_SOCKET")));
}

#[test]
fn socket_errors_map_to_notify_errors() {
    let e = NotifyError::from_socket(SocketError::MissingVar("LISTEN_FDS"));
    assert!(matches!(e, NotifyError::MissingVar("LISTEN_FDS")));
    let e = NotifyError::from_socket(SocketError::IO(String::from("broken")));
    assert!(matches!(e, NotifyError::IO(ref t) if t == "broken"));
    let e = NotifyError::from_socket(SocketError::InvalidVar("LISTEN_PID", String::from("x")));
    assert!(matches!(e, NotifyError::InvalidVar("LISTEN_PID", ref t) if t == "x"));
}
