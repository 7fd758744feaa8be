//! Encoding of status notifications for the service manager.
//!
//! A notification is one `KEY=VALUE` line; a message is an ordered series
//! of notifications and renders to one line per notification, each
//! terminated by a line break, in insertion order. Rendering is pure text
//! work and is verified here; resolving the `NOTIFY_SOCKET` endpoint path
//! is verified on the variable's value, while the datagram transport
//! itself belongs to the hosting application.

use vstd::prelude::*;

use crate::digits::i32_text;
use crate::digits::int_rep;
use crate::digits::int_val;
use crate::digits::is_int_text;
use crate::digits::lemma_int_rep_val;
use crate::socket::SocketError;

verus! {

/// Error returned when a notification cannot be sent.
#[derive(Debug)]
pub enum NotifyError {
    /// An operating-system error, described as text.
    IO(String),
    /// A required environment variable is absent.
    MissingVar(&'static str),
    /// An environment variable is present but cannot be parsed.
    InvalidVar(&'static str, String),
}

impl NotifyError {
    /// The notification-side reading of a socket error. The two
    /// activation-specific errors cannot arise on the notification path
    /// and are excluded.
    pub fn from_socket(value: SocketError) -> (r: Self)
        requires
            !(value is WrongPID),
            !(value is NotSocket),
        ensures
            match value {
                SocketError::IO(t) => r == NotifyError::IO(t),
                SocketError::MissingVar(n) => r == NotifyError::MissingVar(n),
                SocketError::InvalidVar(n, v) => r == NotifyError::InvalidVar(n, v),
                _ => false,
            },
    {
        match value {
            SocketError::IO(t) => NotifyError::IO(t),
            SocketError::MissingVar(n) => NotifyError::MissingVar(n),
            SocketError::InvalidVar(n, v) => NotifyError::InvalidVar(n, v),
            SocketError::WrongPID(_, _) => {
                proof {
                    assert(false);
                }
                NotifyError::MissingVar("")
            },
            SocketError::NotSocket(_) => {
                proof {
                    assert(false);
                }
                NotifyError::MissingVar("")
            },
        }
    }
}

/// A custom `X-key=value` variable to send to the manager.
#[derive(Debug, Clone)]
pub struct CustomVariable {
    key: String,
    value: String,
}

impl View for CustomVariable {
    type V = (Seq<char>, Seq<char>);

    closed spec fn view(&self) -> (Seq<char>, Seq<char>) {
        (self.key@, self.value@)
    }
}

impl CustomVariable {
    /// A custom variable from its key and value. The key is sent with the
    /// `X-` prefix that marks it as non-standard.
    pub fn new(key: String, value: String) -> (r: Self)
        ensures
            r@ == (key@, value@),
    {
        CustomVariable { key, value }
    }
}

/// The kinds of notification the manager understands.
#[derive(Debug, Clone)]
pub enum Notification {
    /// The service has finished initializing.
    Ready,
    /// The service is reloading its configuration.
    Reloading,
    /// The service is shutting down.
    Stopping,
    /// A one-line human-readable service status.
    Status(String),
    /// An error number describing a failure.
    Errno(i32),
    /// A watchdog heartbeat: the service is alive.
    WatchdogOk,
    /// Ask the manager to trigger its watchdog for this service.
    WatchdogTrigger,
    /// A custom variable.
    Custom(CustomVariable),
}

/// The mathematical content of a notification, with text and numbers as
/// their mathematical counterparts.
pub enum NotificationForm {
    Ready,
    Reloading,
    Stopping,
    Status(Seq<char>),
    Errno(int),
    WatchdogOk,
    WatchdogTrigger,
    Custom(Seq<char>, Seq<char>),
}

impl View for Notification {
    type V = NotificationForm;

    open spec fn view(&self) -> NotificationForm {
        match self {
            Notification::Ready => NotificationForm::Ready,
            Notification::Reloading => NotificationForm::Reloading,
            Notification::Stopping => NotificationForm::Stopping,
            Notification::Status(s) => NotificationForm::Status(s@),
            Notification::Errno(e) => NotificationForm::Errno(*e as int),
            Notification::WatchdogOk => NotificationForm::WatchdogOk,
            Notification::WatchdogTrigger => NotificationForm::WatchdogTrigger,
            Notification::Custom(cv) => NotificationForm::Custom(cv@.0, cv@.1),
        }
    }
}

/// The fixed `KEY=VALUE` line for one notification, without the line
/// break.
pub open spec fn line_of(f: NotificationForm) -> Seq<char> {
    match f {
        NotificationForm::Ready => "READY=1"@,
        NotificationForm::Reloading => "RELOADING=1"@,
        NotificationForm::Stopping => "STOPPING=1"@,
        NotificationForm::Status(s) => "STATUS="@ + s,
        NotificationForm::Errno(e) => "ERRNO="@ + int_rep(e),
        NotificationForm::WatchdogOk => "WATCHDOG=1"@,
        NotificationForm::WatchdogTrigger => "WATCHDOG=trigger"@,
        NotificationForm::Custom(k, v) => "X-"@ + k + "="@ + v,
    }
}

/// The wire text of a series of notifications: one line each, in order,
/// each terminated by a line break. An empty series renders to empty text.
pub open spec fn render_spec(ns: Seq<NotificationForm>) -> Seq<char>
    decreases ns.len(),
{
    if ns.len() == 0 {
        Seq::empty()
    } else {
        line_of(ns[0]) + "\n"@ + render_spec(ns.skip(1))
    }
}

/// Rendering preserves order and respects concatenation: the text of one
/// series followed by another is the first text followed by the second.
pub proof fn lemma_render_append(a: Seq<NotificationForm>, b: Seq<NotificationForm>)
    ensures
        render_spec(a + b) == render_spec(a) + render_spec(b),
    decreases a.len(),
{
    if a.len() == 0 {
        assert(a + b =~= b);
        assert(render_spec(a) + render_spec(b) =~= render_spec(b));
    } else {
        assert((a + b).len() > 0);
        assert((a + b)[0] == a[0]);
        assert((a + b).skip(1) =~= a.skip(1) + b);
        lemma_render_append(a.skip(1), b);
        assert(line_of(a[0]) + "\n"@ + (render_spec(a.skip(1)) + render_spec(b)) =~= (line_of(a[0])
            + "\n"@ + render_spec(a.skip(1))) + render_spec(b));
    }
}

/// Extending a series by one notification appends exactly that
/// notification's line and its line break to the text.
pub proof fn lemma_render_push(ns: Seq<NotificationForm>, f: NotificationForm)
    ensures
        render_spec(ns.push(f)) == render_spec(ns) + line_of(f) + "\n"@,
{
    lemma_render_append(ns, seq![f]);
    assert(ns.push(f) =~= ns + seq![f]);
    assert(seq![f].skip(1) =~= Seq::<NotificationForm>::empty());
    assert(render_spec(seq![f]) == line_of(f) + "\n"@ + render_spec(Seq::empty()));
    assert(line_of(f) + "\n"@ + Seq::<char>::empty() =~= line_of(f) + "\n"@);
    assert(render_spec(ns) + (line_of(f) + "\n"@) =~= render_spec(ns) + line_of(f) + "\n"@);
}

/// The forms of a series of notifications.
pub open spec fn forms_of(v: Seq<Notification>) -> Seq<NotificationForm> {
    v.map_values(|n: Notification| n@)
}

impl Notification {
    /// One line of wire text for this notification, without the line
    /// break.
    pub fn render_line(&self) -> (r: String)
        ensures
            r@ == line_of(self@),
    {
        match self {
            Notification::Ready => String::from_str("READY=1"),
            Notification::Reloading => String::from_str("RELOADING=1"),
            Notification::Stopping => String::from_str("STOPPING=1"),
            Notification::Status(s) => {
                let mut r = String::from_str("STATUS=");
                r.append(s.as_str());
                r
            },
            Notification::Errno(e) => {
                let mut r = String::from_str("ERRNO=");
                let d = i32_text(*e);
                r.append(d.as_str());
                r
            },
            Notification::WatchdogOk => String::from_str("WATCHDOG=1"),
            Notification::WatchdogTrigger => String::from_str("WATCHDOG=trigger"),
            Notification::Custom(cv) => {
                let mut r = String::from_str("X-");
                r.append(cv.key.as_str());
                r.append("=");
                r.append(cv.value.as_str());
                r
            },
        }
    }
}

/// A notification message: an ordered series of notifications whose
/// insertion order becomes line order in the wire text.
#[derive(Debug, Clone, Default)]
pub struct Message {
    variables: Vec<Notification>,
}

impl View for Message {
    type V = Seq<NotificationForm>;

    closed spec fn view(&self) -> Seq<NotificationForm> {
        forms_of(self.variables@)
    }
}

impl Message {
    /// An empty message; it renders to empty text.
    pub fn new() -> (r: Self)
        ensures
            r@ == Seq::<NotificationForm>::empty(),
    {
        let r = Message { variables: Vec::new() };
        proof {
            assert(r@ =~= Seq::<NotificationForm>::empty());
        }
        r
    }

    /// Append a notification; it will render after everything already in
    /// the message.
    pub fn push(&mut self, notification: Notification)
        ensures
            final(self)@ == old(self)@.push(notification@),
    {
        self.variables.push(notification);
        proof {
            assert(self@ =~= old(self)@.push(notification@));
        }
    }

    /// A message holding a single notification.
    pub fn from_notification(notification: Notification) -> (r: Self)
        ensures
            r@ == seq![notification@],
    {
        let r = Message { variables: vec![notification] };
        proof {
            assert(r@ =~= seq![notification@]);
        }
        r
    }

    /// A message holding the given notifications, in their given order.
    pub fn from_notifications(items: Vec<Notification>) -> (r: Self)
        ensures
            r@ == forms_of(items@),
    {
        Message { variables: items }
    }

    /// The wire text of the message: one line per notification, in
    /// insertion order. Rendering reads the message and nothing else, so
    /// rendering twice yields identical text.
    pub fn render(&self) -> (r: String)
        ensures
            r@ == render_spec(self@),
    {
        let n = self.variables.len();
        let mut out = String::new();
        let mut i: usize = 0;
        proof {
            assert(self@.take(0) =~= Seq::<NotificationForm>::empty());
        }
        while i < n
            invariant
                i <= n,
                n == self.variables.len(),
                self@.len() == n,
                out@ == render_spec(self@.take(i as int)),
            decreases n - i,
        {
            let line = self.variables[i].render_line();
            out.append(line.as_str());
            out.append("\n");
            proof {
                assert(self@[i as int] == self.variables@[i as int]@);
                assert(self@.take(i + 1) =~= self@.take(i as int).push(self@[i as int]));
                lemma_render_push(self@.take(i as int), self@[i as int]);
            }
            i += 1;
        }
        proof {
            assert(self@.take(n as int) =~= self@);
        }
        out
    }
}

/// Resolve the notification endpoint path from the value of the
/// `NOTIFY_SOCKET` variable, `None` standing for an absent (or non-text)
/// variable.
pub fn notify_socket_path(value: Option<String>) -> (r: Result<String, NotifyError>)
    ensures
        match value {
            Some(v) => r == Ok::<String, NotifyError>(v),
            None => r matches Err(NotifyError::MissingVar(n)) && n@ == "NOTIFY_SOCKET"@,
        },
{
    match value {
        Some(v) => Ok(v),
        None => Err(NotifyError::from_socket(SocketError::MissingVar("NOTIFY_SOCKET"))),
    }
}

/// How a receiver reads one line of wire text back into a notification.
/// The fixed lines are matched whole; a `STATUS=` or `ERRNO=` prefix
/// carries its value; custom `X-` lines are not decoded, since stripping
/// the prefix is lossy by design.
pub open spec fn decode_line(l: Seq<char>) -> Option<NotificationForm> {
    if l == "READY=1"@ {
        Some(NotificationForm::Ready)
    } else if l == "RELOADING=1"@ {
        Some(NotificationForm::Reloading)
    } else if l == "STOPPING=1"@ {
        Some(NotificationForm::Stopping)
    } else if l == "WATCHDOG=1"@ {
        Some(NotificationForm::WatchdogOk)
    } else if l == "WATCHDOG=trigger"@ {
        Some(NotificationForm::WatchdogTrigger)
    } else if l.len() >= 7 && l.take(7) == "STATUS="@ {
        Some(NotificationForm::Status(l.skip(7)))
    } else if l.len() > 6 && l.take(6) == "ERRNO="@ && is_int_text(l.skip(6)) {
        Some(NotificationForm::Errno(int_val(l.skip(6))))
    } else {
        None
    }
}

/// Encoding then decoding a line recovers the original notification for
/// every non-custom kind.
pub proof fn lemma_line_round_trip(f: NotificationForm)
    requires
        !(f is Custom),
    ensures
        decode_line(line_of(f)) == Some(f),
{
    reveal_strlit("READY=1");
    reveal_strlit("RELOADING=1");
    reveal_strlit("STOPPING=1");
    reveal_strlit("WATCHDOG=1");
    reveal_strlit("WATCHDOG=trigger");
    reveal_strlit("STATUS=");
    reveal_strlit("ERRNO=");
    match f {
        NotificationForm::Ready => {
        },
        NotificationForm::Reloading => {
        },
        NotificationForm::Stopping => {
            let l = line_of(f);
            assert(l[0] == 'S' && l[1] == 'T' && l[2] == 'O');
        },
        NotificationForm::WatchdogOk => {
            let l = line_of(f);
            assert(l[0] == 'W');
        },
        NotificationForm::WatchdogTrigger => {
        },
        NotificationForm::Status(s) => {
            let l = line_of(f);
            assert(l.len() == 7 + s.len());
            assert(l[0] == 'S' && l[1] == 'T' && l[2] == 'A');
            assert(l != "READY=1"@) by {
                if l == "READY=1"@ {
                    assert(l[0] == "READY=1"@[0]);
                }
            }
            assert(l != "RELOADING=1"@) by {
                if l == "RELOADING=1"@ {
                    assert(l[0] == "RELOADING=1"@[0]);
                }
            }
            assert(l != "STOPPING=1"@) by {
                if l == "STOPPING=1"@ {
                    assert(l[2] == "STOPPING=1"@[2]);
                }
            }
            assert(l != "WATCHDOG=1"@) by {
                if l == "WATCHDOG=1"@ {
                    assert(l[0] == "WATCHDOG=1"@[0]);
                }
            }
            assert(l != "WATCHDOG=trigger"@) by {
                if l == "WATCHDOG=trigger"@ {
                    assert(l[0] == "WATCHDOG=trigger"@[0]);
                }
            }
            assert(l.take(7) =~= "STATUS="@);
            assert(l.skip(7) =~= s);
        },
        NotificationForm::Errno(e) => {
            lemma_int_rep_val(e);
            let l = line_of(f);
            assert(int_rep(e).len() >= 1);
            assert(l.len() >= 7);
            assert(l[0] == 'E');
            assert(l != "READY=1"@) by {
                if l == "READY=1"@ {
                    assert(l[0] == "READY=1"@[0]);
                }
            }
            assert(l != "RELOADING=1"@) by {
                if l == "RELOADING=1"@ {
                    assert(l[0] == "RELOADING=1"@[0]);
                }
            }
            assert(l != "STOPPING=1"@) by {
                if l == "STOPPING=1"@ {
                    assert(l[0] == "STOPPING=1"@[0]);
                }
            }
            assert(l != "WATCHDOG=1"@) by {
                if l == "WATCHDOG=1"@ {
                    assert(l[0] == "WATCHDOG=1"@[0]);
                }
            }
            assert(l != "WATCHDOG=trigger"@) by {
                if l == "WATCHDOG=trigger"@ {
                    assert(l[0] == "WATCHDOG=trigger"@[0]);
                }
            }
            assert(!(l.len() >= 7 && l.take(7) == "STATUS="@)) by {
                if l.len() >= 7 && l.take(7) == "STATUS="@ {
                    assert(l.take(7)[0] == l[0]);
                }
            }
            assert(l.take(6) =~= "ERRNO="@);
            assert(l.skip(6) =~= int_rep(e));
        },
        NotificationForm::Custom(_, _) => {
        },
    }
}

} // verus!
