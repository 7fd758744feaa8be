//! Integration with a systemd-style service manager without linking its
//! native client library.
//!
//! The crate decodes the socket-activation environment (`LISTEN_PID`,
//! `LISTEN_FDS`, `LISTEN_FDNAMES`), encodes status notifications into the
//! manager's line-oriented wire text, and parses unit properties reported
//! by the manager. All protocol logic is verified; reading the process
//! environment and performing the actual I/O is left to the hosting
//! application, which hands plain values in and out.

use vstd::prelude::*;

pub mod digits;
pub mod notify;
pub mod properties;
pub mod socket;
pub mod text;

pub use crate::socket::sockets;
pub use crate::socket::SystemDSocket;

use crate::digits::dec_rep;
use crate::digits::u32_digits;
use crate::properties::SystemDProperties;
use crate::text::str_eq;

verus! {

/// Whether the manager's reported properties name this process as the
/// unit's main process: true exactly where the `MainPID` property is
/// present and equals this process's PID written in decimal.
pub fn is_main_pid(properties: &SystemDProperties, own_pid: u32) -> (r: bool)
    ensures
        r == (properties@.contains_key("MainPID"@) && properties@["MainPID"@] == dec_rep(
            own_pid as nat,
        )),
{
    let pid_text = u32_digits(own_pid);
    match properties.property("MainPID") {
        Some(v) => str_eq(v, pid_text.as_str()),
        None => false,
    }
}

} // verus!
