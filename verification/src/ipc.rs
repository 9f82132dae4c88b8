//! The binary command protocol between the daemon and its clients.
//!
//! A message is one discriminant byte followed by the variant's payload:
//! nothing, one percentage byte (0-100), or one mode byte.  The length is
//! implicit in the discriminant.  Percentage payloads outside 0-100 and
//! unknown discriminants or mode bytes are protocol errors, decided at
//! this boundary rather than asserted deeper in the daemon.

use vstd::prelude::*;

use crate::errors::ProtocolError;

verus! {

/// Whether the daemon adjusts brightness on its own (`Auto`) or leaves it
/// where the user last set it (`Manual`).
#[derive(Clone, Copy, Debug, PartialEq, Eq, Structural)]
pub enum BacklightMode {
    Auto,
    Manual,
}

/// The payload of a `GetInfoResponse`: the average brightness percentage
/// over all known monitors.
#[derive(Clone, Copy, Debug, PartialEq, Eq, Structural)]
pub struct BacklightInfo {
    pub brightness_percent: u8,
}

/// A client request, or the daemon's one response kind.
#[derive(Clone, Copy, Debug, PartialEq, Eq, Structural)]
pub enum BacklightCommand {
    SetBrightness(u8),
    IncreaseBrightness(u8),
    DecreaseBrightness(u8),
    TurnOffMonitors,
    TurnOnMonitors,
    Refresh,
    SetMode(BacklightMode),
    GetInfo,
    GetInfoResponse(BacklightInfo),
    NotifyShutdown,
}

impl BacklightCommand {
    /// Every percentage payload is within 0-100.
    pub open spec fn wf(self) -> bool {
        match self {
            BacklightCommand::SetBrightness(p) => p <= 100,
            BacklightCommand::IncreaseBrightness(p) => p <= 100,
            BacklightCommand::DecreaseBrightness(p) => p <= 100,
            BacklightCommand::GetInfoResponse(info) => info.brightness_percent <= 100,
            _ => true,
        }
    }
}

/// The wire byte of a mode.
pub open spec fn mode_byte(m: BacklightMode) -> u8 {
    match m {
        BacklightMode::Auto => 0,
        BacklightMode::Manual => 1,
    }
}

/// The wire encoding of a command: its discriminant byte, then its
/// payload byte if it has one.
pub open spec fn encoding(c: BacklightCommand) -> Seq<u8> {
    match c {
        BacklightCommand::SetBrightness(p) => seq![0u8, p],
        BacklightCommand::IncreaseBrightness(p) => seq![1u8, p],
        BacklightCommand::DecreaseBrightness(p) => seq![2u8, p],
        BacklightCommand::TurnOffMonitors => seq![3u8],
        BacklightCommand::TurnOnMonitors => seq![4u8],
        BacklightCommand::Refresh => seq![5u8],
        BacklightCommand::SetMode(m) => seq![6u8, mode_byte(m)],
        BacklightCommand::GetInfo => seq![7u8],
        BacklightCommand::GetInfoResponse(info) => seq![8u8, info.brightness_percent],
        BacklightCommand::NotifyShutdown => seq![9u8],
    }
}

/// What decoding the start of `s` yields: the command and how many bytes
/// it occupied, or the protocol error that rejects it.
pub open spec fn spec_decode(s: Seq<u8>) -> Result<(BacklightCommand, int), ProtocolError> {
    if s.len() == 0 {
        Err(ProtocolError::Truncated)
    } else {
        let tag = s[0];
        if tag == 0 || tag == 1 || tag == 2 || tag == 8 {
            if s.len() < 2 {
                Err(ProtocolError::Truncated)
            } else if s[1] > 100 {
                Err(ProtocolError::ValueOutOfRange)
            } else if tag == 0 {
                Ok((BacklightCommand::SetBrightness(s[1]), 2))
            } else if tag == 1 {
                Ok((BacklightCommand::IncreaseBrightness(s[1]), 2))
            } else if tag == 2 {
                Ok((BacklightCommand::DecreaseBrightness(s[1]), 2))
            } else {
                Ok((BacklightCommand::GetInfoResponse(BacklightInfo { brightness_percent: s[1] }), 2))
            }
        } else if tag == 6 {
            if s.len() < 2 {
                Err(ProtocolError::Truncated)
            } else if s[1] == 0 {
                Ok((BacklightCommand::SetMode(BacklightMode::Auto), 2))
            } else if s[1] == 1 {
                Ok((BacklightCommand::SetMode(BacklightMode::Manual), 2))
            } else {
                Err(ProtocolError::UnknownMode)
            }
        } else if tag == 3 {
            Ok((BacklightCommand::TurnOffMonitors, 1))
        } else if tag == 4 {
            Ok((BacklightCommand::TurnOnMonitors, 1))
        } else if tag == 5 {
            Ok((BacklightCommand::Refresh, 1))
        } else if tag == 7 {
            Ok((BacklightCommand::GetInfo, 1))
        } else if tag == 9 {
            Ok((BacklightCommand::NotifyShutdown, 1))
        } else {
            Err(ProtocolError::UnknownTag)
        }
    }
}

/// How many bytes a message with discriminant `tag` occupies, or `None`
/// when the discriminant names no command.
pub open spec fn spec_frame_len(tag: u8) -> Option<int> {
    if tag == 0 || tag == 1 || tag == 2 || tag == 6 || tag == 8 {
        Some(2)
    } else if tag == 3 || tag == 4 || tag == 5 || tag == 7 || tag == 9 {
        Some(1)
    } else {
        None
    }
}

/// The total length of the message that begins with `tag`, so a reader
/// can collect the whole frame before decoding it.
pub fn frame_len(tag: u8) -> (r: Result<usize, ProtocolError>)
    ensures
        match spec_frame_len(tag) {
            Some(n) => r matches Ok(m) && m == n,
            None => r == Err::<usize, ProtocolError>(ProtocolError::UnknownTag),
        },
{
    match tag {
        0 | 1 | 2 | 6 | 8 => Ok(2),
        3 | 4 | 5 | 7 | 9 => Ok(1),
        _ => Err(ProtocolError::UnknownTag),
    }
}

impl BacklightCommand {
    /// Encodes the command for the wire.
    pub fn encode(&self) -> (v: Vec<u8>)
        requires
            self.wf(),
        ensures
            v@ == encoding(*self),
    {
        let mut v: Vec<u8> = Vec::new();
        match self {
            BacklightCommand::SetBrightness(p) => {
                v.push(0);
                v.push(*p);
                proof { assert(v@ =~= encoding(*self)); }
            }
            BacklightCommand::IncreaseBrightness(p) => {
                v.push(1);
                v.push(*p);
                proof { assert(v@ =~= encoding(*self)); }
            }
            BacklightCommand::DecreaseBrightness(p) => {
                v.push(2);
                v.push(*p);
                proof { assert(v@ =~= encoding(*self)); }
            }
            BacklightCommand::TurnOffMonitors => {
                v.push(3);
                proof { assert(v@ =~= encoding(*self)); }
            }
            BacklightCommand::TurnOnMonitors => {
                v.push(4);
                proof { assert(v@ =~= encoding(*self)); }
            }
            BacklightCommand::Refresh => {
                v.push(5);
                proof { assert(v@ =~= encoding(*self)); }
            }
            BacklightCommand::SetMode(m) => {
                v.push(6);
                match m {
                    BacklightMode::Auto => v.push(0),
                    BacklightMode::Manual => v.push(1),
                }
                proof { assert(v@ =~= encoding(*self)); }
            }
            BacklightCommand::GetInfo => {
                v.push(7);
                proof { assert(v@ =~= encoding(*self)); }
            }
            BacklightCommand::GetInfoResponse(info) => {
                v.push(8);
                v.push(info.brightness_percent);
                proof { assert(v@ =~= encoding(*self)); }
            }
            BacklightCommand::NotifyShutdown => {
                v.push(9);
                proof { assert(v@ =~= encoding(*self)); }
            }
        }
        v
    }

    /// Decodes one message from the start of `bytes`; extra bytes after
    /// the message are left for the next read.
    pub fn decode(bytes: &[u8]) -> (r: Result<(BacklightCommand, usize), ProtocolError>)
        ensures
            match spec_decode(bytes@) {
                Ok(p) => r matches Ok(q) && q.0 == p.0 && q.1 == p.1,
                Err(e) => r == Err::<(BacklightCommand, usize), ProtocolError>(e),
            },
    {
        if bytes.len() == 0 {
            return Err(ProtocolError::Truncated);
        }
        let tag = bytes[0];
        match tag {
            0 | 1 | 2 | 8 => {
                if bytes.len() < 2 {
                    Err(ProtocolError::Truncated)
                } else {
                    let p = bytes[1];
                    if p > 100 {
                        Err(ProtocolError::ValueOutOfRange)
                    } else if tag == 0 {
                        Ok((BacklightCommand::SetBrightness(p), 2))
                    } else if tag == 1 {
                        Ok((BacklightCommand::IncreaseBrightness(p), 2))
                    } else if tag == 2 {
                        Ok((BacklightCommand::DecreaseBrightness(p), 2))
                    } else {
                        Ok((BacklightCommand::GetInfoResponse(BacklightInfo { brightness_percent: p }), 2))
                    }
                }
            }
            6 => {
                if bytes.len() < 2 {
                    Err(ProtocolError::Truncated)
                } else {
                    let b = bytes[1];
                    if b == 0 {
                        Ok((BacklightCommand::SetMode(BacklightMode::Auto), 2))
                    } else if b == 1 {
                        Ok((BacklightCommand::SetMode(BacklightMode::Manual), 2))
                    } else {
                        Err(ProtocolError::UnknownMode)
                    }
                }
            }
            3 => Ok((BacklightCommand::TurnOffMonitors, 1)),
            4 => Ok((BacklightCommand::TurnOnMonitors, 1)),
            5 => Ok((BacklightCommand::Refresh, 1)),
            7 => Ok((BacklightCommand::GetInfo, 1)),
            9 => Ok((BacklightCommand::NotifyShutdown, 1)),
            _ => Err(ProtocolError::UnknownTag),
        }
    }
}

/// Law: decoding an encoded command yields exactly that command and
/// consumes exactly the encoding, for every well-formed command.
pub proof fn lemma_codec_round_trip(c: BacklightCommand)
    requires
        c.wf(),
    ensures
        spec_decode(encoding(c)) matches Ok(p) && p.0 == c && p.1 == encoding(c).len(),
{
    match c {
        BacklightCommand::SetBrightness(p) => {
            assert(encoding(c)[0] == 0);
        }
        BacklightCommand::IncreaseBrightness(p) => {
            assert(encoding(c)[0] == 1);
        }
        BacklightCommand::DecreaseBrightness(p) => {
            assert(encoding(c)[0] == 2);
        }
        BacklightCommand::TurnOffMonitors => {
            assert(encoding(c)[0] == 3);
        }
        BacklightCommand::TurnOnMonitors => {
            assert(encoding(c)[0] == 4);
        }
        BacklightCommand::Refresh => {
            assert(encoding(c)[0] == 5);
        }
        BacklightCommand::SetMode(m) => {
            assert(encoding(c)[0] == 6);
            match m {
                BacklightMode::Auto => {
                    assert(encoding(c)[1] == 0);
                }
                BacklightMode::Manual => {
                    assert(encoding(c)[1] == 1);
                }
            }
        }
        BacklightCommand::GetInfo => {
            assert(encoding(c)[0] == 7);
        }
        BacklightCommand::GetInfoResponse(info) => {
            assert(encoding(c)[0] == 8);
        }
        BacklightCommand::NotifyShutdown => {
            assert(encoding(c)[0] == 9);
        }
    }
}

} // verus!
