//! Per-command routing decisions of the client-session loop.
//!
//! For each decoded command the router says whether the mode scheduler
//! must be signalled first, and which operation the session then performs.
//! Brightness writes imply a manual mode transition; a mode-set command
//! forwards its mode; everything else leaves the scheduler alone.

use vstd::prelude::*;

use crate::ipc::BacklightCommand;
use crate::ipc::BacklightMode;

verus! {

/// The operation a command dispatches to.
#[derive(Clone, Copy, Debug, PartialEq, Eq, Structural)]
pub enum RouterAction {
    /// Set every monitor to the given percentage.
    ApplySet(u8),
    /// Raise every monitor by the given delta.
    ApplyIncrease(u8),
    /// Lower every monitor by the given delta.
    ApplyDecrease(u8),
    /// Power every monitor off.
    PowerOff,
    /// Power every monitor on.
    PowerOn,
    /// Re-enumerate the monitor list.
    DoRefresh,
    /// Send back exactly one response with the average brightness.
    Respond,
    /// Nothing to do (a response arriving from a client is ignored).
    NoOp,
    /// The client ended the session.
    EndSession,
}

/// What one command makes the session do.
#[derive(Clone, Copy, Debug, PartialEq, Eq)]
pub struct RouterDecision {
    /// The mode to signal to the scheduler before acting, if any.
    pub signal: Option<BacklightMode>,
    /// The operation to perform.
    pub action: RouterAction,
}

/// The routing of each command: brightness writes signal a manual
/// transition and then apply; a mode-set command only signals; a refresh,
/// the power commands and the info request dispatch without a signal; a
/// stray response is ignored; the shutdown marker ends the session.
pub open spec fn spec_route(cmd: BacklightCommand) -> RouterDecision {
    match cmd {
        BacklightCommand::SetBrightness(p) => RouterDecision {
            signal: Some(BacklightMode::Manual),
            action: RouterAction::ApplySet(p),
        },
        BacklightCommand::IncreaseBrightness(p) => RouterDecision {
            signal: Some(BacklightMode::Manual),
            action: RouterAction::ApplyIncrease(p),
        },
        BacklightCommand::DecreaseBrightness(p) => RouterDecision {
            signal: Some(BacklightMode::Manual),
            action: RouterAction::ApplyDecrease(p),
        },
        BacklightCommand::TurnOffMonitors => RouterDecision {
            signal: None,
            action: RouterAction::PowerOff,
        },
        BacklightCommand::TurnOnMonitors => RouterDecision {
            signal: None,
            action: RouterAction::PowerOn,
        },
        BacklightCommand::Refresh => RouterDecision {
            signal: None,
            action: RouterAction::DoRefresh,
        },
        BacklightCommand::SetMode(m) => RouterDecision {
            signal: Some(m),
            action: RouterAction::NoOp,
        },
        BacklightCommand::GetInfo => RouterDecision {
            signal: None,
            action: RouterAction::Respond,
        },
        BacklightCommand::GetInfoResponse(_) => RouterDecision {
            signal: None,
            action: RouterAction::NoOp,
        },
        BacklightCommand::NotifyShutdown => RouterDecision {
            signal: None,
            action: RouterAction::EndSession,
        },
    }
}

/// Routes one decoded command.
pub fn route_command(cmd: &BacklightCommand) -> (r: RouterDecision)
    ensures
        r == spec_route(*cmd),
{
    match cmd {
        BacklightCommand::SetBrightness(p) => RouterDecision {
            signal: Some(BacklightMode::Manual),
            action: RouterAction::ApplySet(*p),
        },
        BacklightCommand::IncreaseBrightness(p) => RouterDecision {
            signal: Some(BacklightMode::Manual),
            action: RouterAction::ApplyIncrease(*p),
        },
        BacklightCommand::DecreaseBrightness(p) => RouterDecision {
            signal: Some(BacklightMode::Manual),
            action: RouterAction::ApplyDecrease(*p),
        },
        BacklightCommand::TurnOffMonitors => RouterDecision {
            signal: None,
            action: RouterAction::PowerOff,
        },
        BacklightCommand::TurnOnMonitors => RouterDecision {
            signal: None,
            action: RouterAction::PowerOn,
        },
        BacklightCommand::Refresh => RouterDecision {
            signal: None,
            action: RouterAction::DoRefresh,
        },
        BacklightCommand::SetMode(m) => RouterDecision {
            signal: Some(*m),
            action: RouterAction::NoOp,
        },
        BacklightCommand::GetInfo => RouterDecision {
            signal: None,
            action: RouterAction::Respond,
        },
        BacklightCommand::GetInfoResponse(_) => RouterDecision {
            signal: None,
            action: RouterAction::NoOp,
        },
        BacklightCommand::NotifyShutdown => RouterDecision {
            signal: None,
            action: RouterAction::EndSession,
        },
    }
}

} // verus!
