use systemd_compat::socket::construct_sockets;
use systemd_compat::socket::expect_socket;
use systemd_compat::socket::SocketError;
use systemd_compat::sockets;

#[test]
fn parse_variables() {
    let listen_fds = "3";
    let listen_fd_names = "alice:bob:charlie";

    let sockets = construct_sockets(listen_fds, Some(listen_fd_names), "4242", 4242).unwrap();

    let names: Vec<_> = sockets.iter().map(|s| s.name().unwrap()).collect();
    assert_eq!(names, vec!["alice", "bob", "charlie"]);

    let fds: Vec<_> = sockets.iter().map(|s| s.raw_fd()).collect();
    assert_eq!(fds, vec![3, 4, 5]);
}

#[test]
fn wrong_pid_fails_whatever_else_holds() {
    // Even with an unparseable LISTEN_FDS, the PID mismatch decides.
    let err = construct_sockets("not-a-number", Some("a:b"), "4243", 4242).unwrap_err();
    assert!(matches!(err, SocketError::WrongPID(4242, ref raw) if raw == "4243"));
}

#[test]
fn name_count_mismatch_discards_names() {
    let sockets = construct_sockets("2", Some("alice:bob:charlie"), "7", 7).unwrap();
    assert_eq!(sockets.len(), 2);
    assert!(sockets[0].name().is_none());
    assert!(sockets[1].name().is_none());
    assert_eq!(sockets[0].raw_fd(), 3);
    assert_eq!(sockets[1].raw_fd(), 4);
}

#[test]
fn unparseable_pid_is_invalid_var() {
    let err = construct_sockets("1", None, "12x", 4242).unwrap_err();
    assert!(matches!(err, SocketError::InvalidVar("LISTEN_PID", ref raw) if raw == "12x"));
}

#[test]
fn unparseable_fds_is_invalid_var() {
    let err = construct_sockets("abc", None, "4242", 4242).unwrap_err();
    assert!(matches!(err, SocketError::InvalidVar("LISTEN_FDS", ref raw) if raw == "abc"));
}

#[test]
fn oversized_pid_is_invalid_var() {
    let err = construct_sockets("1", None, "4294967296", 4242).unwrap_err();
    assert!(matches!(err, SocketError::InvalidVar("LISTEN_PID", _)));
}

#[test]
fn oversized_fds_count_is_invalid_var() {
    let err = construct_sockets("4294967295", None, "4242", 4242).unwrap_err();
    assert!(matches!(err, SocketError::InvalidVar("LISTEN_FDS", _)));
}

#[test]
fn leading_plus_parses_as_std_does() {
    let sockets = construct_sockets("+2", None, "+4242", 4242).unwrap();
    assert_eq!(sockets.len(), 2);
}

#[test]
fn zero_descriptors_decode_to_nothing() {
    let sockets = construct_sockets("0", None, "4242", 4242).unwrap();
    assert!(sockets.is_empty());
}

#[test]
fn empty_names_string_is_one_empty_token() {
    // Splitting an empty string yields one empty token, so with exactly
    // one descriptor the empty name is attached.
    let sockets = construct_sockets("1", Some(""), "4242", 4242).unwrap();
    assert_eq!(sockets.len(), 1);
    assert_eq!(sockets[0].name(), Some(""));
}

#[test]
fn absent_names_decode_unnamed() {
    let sockets = construct_sockets("2", None, "4242", 4242).unwrap();
    assert_eq!(sockets.len(), 2);
    assert!(sockets[0].name().is_none());
    assert!(sockets[1].name().is_none());
}

#[test]
fn missing_fds_reported_before_missing_pid() {
    let err = sockets(None, None, None, 1).unwrap_err();
    assert!(matches!(err, SocketError::MissingVar("LISTEN_FDS")));
}

#[test]
fn missing_pid_reported_when_fds_present() {
    let err = sockets(None, Some(String::from("1")), None, 1).unwrap_err();
    assert!(matches!(err, SocketError::MissingVar("LISTEN_PID")));
}

#[test]
fn sockets_decodes_from_values() {
    let got = sockets(
        Some(String::from("99")),
        Some(String::from("2")),
        Some(String::from("a:b")),
        99,
    )
    .unwrap();
    assert_eq!(got.len(), 2);
    assert_eq!(got[0].name(), Some("a"));
    assert_eq!(got[1].name(), Some("b"));
    assert_eq!(got[0].raw_fd(), 3);
    assert_eq!(got[1].raw_fd(), 4);
}

#[test]
fn non_socket_descriptor_is_refused() {
    let err = expect_socket(7, false).unwrap_err();
    assert!(matches!(err, SocketError::NotSocket(7)));
}

#[test]
fn socket_descriptor_is_accepted() {
    assert_eq!(expect_socket(5, true).unwrap(), 5);
}
