//! The auto/manual mode state machine of the scheduler.
//!
//! The scheduler wakes periodically or when a mode-change signal arrives.
//! A signal records the new mode and resets the change clock; on every
//! wake, twelve hours without a signal force the mode back to `Auto`, so
//! a manual adjustment never sticks forever.

use vstd::prelude::*;

use crate::ipc::BacklightMode;

verus! {

/// Seconds without a mode change after which the scheduler reverts to
/// `Auto` on its own (12 hours).
pub const MODE_REVERT_SECS: u64 = 43200;

/// The scheduler's bounded wait between wakes, in seconds (10 minutes).
pub const AUTO_ADJUST_INTERVAL_SECS: u64 = 600;

/// The current mode and the instant (seconds on a monotonic clock) of the
/// last mode change.
#[derive(Clone, Copy, Debug, PartialEq, Eq, Structural)]
pub struct ModeState {
    pub mode: BacklightMode,
    pub last_change: u64,
}

impl ModeState {
    /// The state after one wake at `now`: an arriving signal sets the
    /// mode and resets the change clock; then, whatever the mode, more
    /// than twelve hours without a change force `Auto` back.
    pub open spec fn stepped(self, signal: Option<BacklightMode>, now: u64) -> ModeState {
        let mid = match signal {
            Some(m) => ModeState { mode: m, last_change: now },
            None => self,
        };
        if now - mid.last_change > MODE_REVERT_SECS {
            ModeState { mode: BacklightMode::Auto, last_change: mid.last_change }
        } else {
            mid
        }
    }

    /// The scheduler starts in `Auto`.
    pub fn new(now: u64) -> (st: ModeState)
        ensures
            st == (ModeState { mode: BacklightMode::Auto, last_change: now }),
    {
        ModeState { mode: BacklightMode::Auto, last_change: now }
    }

    /// Processes one wake: the optional signal received, and the current
    /// instant (which never precedes the last recorded change).
    pub fn step(&mut self, signal: Option<BacklightMode>, now: u64)
        requires
            old(self).last_change <= now,
        ensures
            *final(self) == old(self).stepped(signal, now),
    {
        match signal {
            Some(m) => {
                self.mode = m;
                self.last_change = now;
            }
            None => {}
        }
        if now - self.last_change > MODE_REVERT_SECS {
            self.mode = BacklightMode::Auto;
        }
    }

    /// Whether this wake should recompute and apply a brightness target:
    /// only in `Auto` mode.
    pub fn should_adjust(&self) -> (r: bool)
        ensures
            r == (self.mode is Auto),
    {
        match self.mode {
            BacklightMode::Auto => true,
            BacklightMode::Manual => false,
        }
    }
}

/// Law: if more than twelve hours elapse with no mode-change signal, the
/// next wake reverts the mode to `Auto` by itself, whatever mode the
/// scheduler was in.
pub proof fn lemma_mode_reverts_to_auto(st: ModeState, now: u64)
    requires
        st.last_change <= now,
        now - st.last_change > MODE_REVERT_SECS,
    ensures
        st.stepped(None, now).mode is Auto,
{
}

} // verus!
