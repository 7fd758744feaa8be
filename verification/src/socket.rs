//! Decoding of sockets passed by the service manager.
//!
//! At activation the manager describes the descriptors it hands over in
//! three environment variables: `LISTEN_PID` names the process the hand-off
//! is meant for, `LISTEN_FDS` the number of consecutive descriptors
//! starting at the fixed offset, and `LISTEN_FDNAMES` an optional
//! colon-separated list of names. The decoder here works on the variables'
//! values as plain strings; the hosting application reads the environment
//! and owns the descriptors themselves.

use vstd::prelude::*;

use crate::digits::parse_u32;
use crate::digits::parsed_u32;
use crate::text::split_chars;
use crate::text::split_str;
use crate::text::views_of;

verus! {

/// The fixed descriptor number at which handed-off descriptors begin,
/// immediately after standard input, output and error.
pub const FD_OFFSET: i32 = 3;

/// The greatest declared descriptor count the decoder accepts: with any
/// more, the last descriptor's number would not fit a descriptor value.
pub const MAX_FD_COUNT: u32 = 2147483645;

/// Errors from decoding the activation environment or from adopting a
/// handed-off descriptor.
#[derive(Debug)]
pub enum SocketError {
    /// An operating-system error, described as text.
    IO(String),
    /// The PID the manager named is not this process's PID: the activation
    /// environment was inherited and does not apply. Holds this process's
    /// PID and the raw `LISTEN_PID` value.
    WrongPID(u32, String),
    /// The handed-off descriptor is not a socket.
    NotSocket(i32),
    /// A required environment variable is absent.
    MissingVar(&'static str),
    /// An environment variable is present but cannot be parsed.
    InvalidVar(&'static str, String),
}

/// The declared descriptor count: the parsed `LISTEN_FDS` value where it
/// has the shape of an unsigned decimal and every descriptor it declares
/// can be numbered, nothing otherwise.
pub open spec fn fd_count_of(s: Seq<char>) -> Option<int> {
    match parsed_u32(s) {
        Some(v) => if v <= MAX_FD_COUNT {
            Some(v)
        } else {
            None
        },
        None => None,
    }
}

/// The name tokens attached to the descriptors: the colon-separated tokens
/// of `LISTEN_FDNAMES`, but only where the variable is present and its
/// token count equals the declared descriptor count; name information of
/// any other shape is discarded whole.
pub open spec fn decoded_names(names: Option<Seq<char>>, n: int) -> Option<Seq<Seq<char>>> {
    match names {
        Some(nv) => if split_chars(nv, ':').len() == n {
            Some(split_chars(nv, ':'))
        } else {
            None
        },
        None => None,
    }
}

/// The mathematical content of a decoded socket: its optional name and
/// its descriptor number.
pub struct SocketView {
    pub name: Option<Seq<char>>,
    pub fd: int,
}

/// A descriptor the manager passed to this process, with its optional
/// name. The descriptor number is only recorded here; adopting the
/// descriptor as a listener is the hosting application's step.
#[derive(Debug)]
pub struct SystemDSocket {
    name: Option<String>,
    fd: i32,
}

impl View for SystemDSocket {
    type V = SocketView;

    closed spec fn view(&self) -> SocketView {
        SocketView {
            name: match self.name {
                Some(s) => Some(s@),
                None => None,
            },
            fd: self.fd as int,
        }
    }
}

impl SystemDSocket {
    fn new(name: String, fd: i32) -> (r: Self)
        ensures
            r@.name == Some(name@),
            r@.fd == fd as int,
    {
        SystemDSocket { name: Some(name), fd }
    }

    fn unnamed(fd: i32) -> (r: Self)
        ensures
            r@.name is None,
            r@.fd == fd as int,
    {
        SystemDSocket { name: None, fd }
    }

    /// The name of the socket, if the manager provided one.
    pub fn name(&self) -> (r: Option<&str>)
        ensures
            match r {
                Some(s) => self@.name == Some(s@),
                None => self@.name is None,
            },
    {
        match &self.name {
            Some(s) => Some(s.as_str()),
            None => None,
        }
    }

    /// The raw descriptor number.
    pub fn raw_fd(&self) -> (r: i32)
        ensures
            r as int == self@.fd,
    {
        self.fd
    }
}

/// What decoding the three activation values yields, given this process's
/// PID: either one socket per declared descriptor, numbered consecutively
/// from the offset and named exactly where the name tokens match the count,
/// or the one error the values force.
pub open spec fn decode_post(
    fds: Seq<char>,
    names: Option<Seq<char>>,
    pid: Seq<char>,
    own_pid: u32,
    r: Result<Vec<SystemDSocket>, SocketError>,
) -> bool {
    match r {
        Ok(socks) => {
            &&& parsed_u32(pid) == Some(own_pid as int)
            &&& fd_count_of(fds) is Some
            &&& {
                let n = fd_count_of(fds)->Some_0;
                &&& socks@.len() == n
                &&& forall|k: int| 0 <= k < n ==> (#[trigger] socks@[k])@.fd == FD_OFFSET + k
                &&& match decoded_names(names, n) {
                    Some(toks) => forall|k: int|
                        0 <= k < n ==> (#[trigger] socks@[k])@.name == Some(toks[k]),
                    None => forall|k: int| 0 <= k < n ==> (#[trigger] socks@[k])@.name is None,
                }
            }
        },
        Err(SocketError::InvalidVar(var, raw)) => {
            ||| {
                &&& var@ == "LISTEN_PID"@
                &&& raw@ == pid
                &&& parsed_u32(pid) is None
            }
            ||| {
                &&& var@ == "LISTEN_FDS"@
                &&& raw@ == fds
                &&& parsed_u32(pid) == Some(own_pid as int)
                &&& fd_count_of(fds) is None
            }
        },
        Err(SocketError::WrongPID(actual, declared)) => {
            &&& actual == own_pid
            &&& declared@ == pid
            &&& parsed_u32(pid) is Some
            &&& parsed_u32(pid) != Some(own_pid as int)
        },
        Err(_) => false,
    }
}

/// Decode the activation values into one socket per declared descriptor.
///
/// The PID is parsed and compared first: a mismatch means the environment
/// was inherited from another process and fails the whole call, whatever
/// the other values hold. Decoding never partially succeeds.
pub fn construct_sockets(
    listen_fds: &str,
    listen_fd_names: Option<&str>,
    listen_pid: &str,
    own_pid: u32,
) -> (r: Result<Vec<SystemDSocket>, SocketError>)
    ensures
        decode_post(
            listen_fds@,
            match listen_fd_names {
                Some(s) => Some(s@),
                None => None,
            },
            listen_pid@,
            own_pid,
            r,
        ),
{
    let pid_parsed = parse_u32(listen_pid);
    if pid_parsed.is_none() {
        return Err(SocketError::InvalidVar("LISTEN_PID", String::from_str(listen_pid)));
    }
    if pid_parsed.unwrap() != own_pid {
        return Err(SocketError::WrongPID(own_pid, String::from_str(listen_pid)));
    }
    let fds_parsed = parse_u32(listen_fds);
    let n: u32;
    match fds_parsed {
        Some(v) => {
            if v > MAX_FD_COUNT {
                return Err(SocketError::InvalidVar("LISTEN_FDS", String::from_str(listen_fds)));
            }
            n = v;
        },
        None => {
            return Err(SocketError::InvalidVar("LISTEN_FDS", String::from_str(listen_fds)));
        },
    }
    if let Some(names_str) = listen_fd_names {
        let toks = split_str(names_str, ':');
        if toks.len() == n as usize {
            let mut socks: Vec<SystemDSocket> = Vec::new();
            let mut k: u32 = 0;
            while k < n
                invariant
                    k <= n,
                    n <= MAX_FD_COUNT,
                    toks@.len() == n,
                    views_of(toks@) == split_chars(names_str@, ':'),
                    socks@.len() == k,
                    forall|j: int| 0 <= j < k ==> (#[trigger] socks@[j])@.fd == FD_OFFSET + j,
                    forall|j: int|
                        0 <= j < k ==> (#[trigger] socks@[j])@.name == Some(
                            split_chars(names_str@, ':')[j],
                        ),
                decreases n - k,
            {
                let name = toks[k as usize].clone();
                proof {
                    assert(views_of(toks@)[k as int] == toks@[k as int]@);
                }
                socks.push(SystemDSocket::new(name, FD_OFFSET + k as i32));
                k += 1;
            }
            return Ok(socks);
        }
    }
    let mut socks: Vec<SystemDSocket> = Vec::new();
    let mut k: u32 = 0;
    while k < n
        invariant
            k <= n,
            n <= MAX_FD_COUNT,
            socks@.len() == k,
            forall|j: int| 0 <= j < k ==> (#[trigger] socks@[j])@.fd == FD_OFFSET + j,
            forall|j: int| 0 <= j < k ==> (#[trigger] socks@[j])@.name is None,
        decreases n - k,
    {
        socks.push(SystemDSocket::unnamed(FD_OFFSET + k as i32));
        k += 1;
    }
    Ok(socks)
}

/// Decode the activation environment from the values of the three
/// variables, `None` standing for an absent (or non-text) variable.
///
/// An absent `LISTEN_FDS` is reported before an absent `LISTEN_PID`;
/// absent names are tolerated. Everything else is `construct_sockets`.
pub fn sockets(
    listen_pid: Option<String>,
    listen_fds: Option<String>,
    listen_fd_names: Option<String>,
    own_pid: u32,
) -> (r: Result<Vec<SystemDSocket>, SocketError>)
    ensures
        match (listen_fds, listen_pid) {
            (None, _) => r matches Err(SocketError::MissingVar(v)) && v@ == "LISTEN_FDS"@,
            (Some(_), None) => r matches Err(SocketError::MissingVar(v)) && v@ == "LISTEN_PID"@,
            (Some(f), Some(p)) => decode_post(
                f@,
                match listen_fd_names {
                    Some(s) => Some(s@),
                    None => None,
                },
                p@,
                own_pid,
                r,
            ),
        },
{
    let fds = match listen_fds {
        Some(s) => s,
        None => {
            return Err(SocketError::MissingVar("LISTEN_FDS"));
        },
    };
    let pid = match listen_pid {
        Some(s) => s,
        None => {
            return Err(SocketError::MissingVar("LISTEN_PID"));
        },
    };
    match listen_fd_names {
        Some(ns) => construct_sockets(fds.as_str(), Some(ns.as_str()), pid.as_str(), own_pid),
        None => construct_sockets(fds.as_str(), None, pid.as_str(), own_pid),
    }
}

/// The decision inside adopting a descriptor as a listener: a descriptor
/// whose metadata does not mark it as a socket is refused with the
/// not-a-socket error; the hosting application queries the metadata and
/// performs the conversion itself.
pub fn expect_socket(fd: i32, is_socket: bool) -> (r: Result<i32, SocketError>)
    ensures
        r == if is_socket {
            Result::<i32, SocketError>::Ok(fd)
        } else {
            Result::<i32, SocketError>::Err(SocketError::NotSocket(fd))
        },
{
    if is_socket {
        Ok(fd)
    } else {
        Err(SocketError::NotSocket(fd))
    }
}

} // verus!
