//! The failure taxonomy of the daemon.

use vstd::prelude::*;

verus! {

/// A malformed or truncated message on the control socket.  Such an error
/// ends the offending client session; it never takes the daemon down.
#[derive(Clone, Copy, Debug, PartialEq, Eq, Structural)]
pub enum ProtocolError {
    /// The discriminant byte names no command.
    UnknownTag,
    /// The message ends before its payload is complete.
    Truncated,
    /// A percentage payload byte is greater than 100.
    ValueOutOfRange,
    /// A mode payload byte names no mode.
    UnknownMode,
}

/// An error surfaced by the library's operations.
#[derive(Clone, Copy, Debug, PartialEq, Eq, Structural)]
pub enum BacklightError {
    /// A monitor's brightness or power write failed.
    Device,
    /// The backend lacks power control.
    NotSupported,
    /// A malformed or truncated message on the control socket.
    Protocol(ProtocolError),
    /// A malformed explicitly-configured location.
    Config,
    /// The remote geolocation call failed.
    Network,
    /// The location cache file was unreadable or malformed.
    Cache,
}

} // verus!
