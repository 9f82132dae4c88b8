//! Core logic of a backlight-management daemon.
//!
//! The library owns everything that can be stated and proved about the
//! daemon: the monitor registry and its batch brightness operations, the
//! sun-curve brightness calculator, the auto/manual mode state machine,
//! location resolution (explicit configuration, cached value, remote
//! lookup) with its fixed-point coordinate parsing, the binary command
//! protocol, and the per-command routing decisions.  The surrounding
//! process (sockets, device writes, clocks, HTTP) feeds these functions
//! plain values and performs the actions they decide on.

pub mod cachefile;
pub mod errors;
pub mod ipc;
pub mod location;
pub mod monitors;
pub mod numtext;
pub mod router;
pub mod sched;
pub mod sun;
