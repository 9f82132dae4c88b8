//! The monitor registry and the batch brightness operations.
//!
//! The registry owns the list of discovered monitors and the instant of
//! the last refresh.  Refreshing replaces the whole list at once, so a
//! reader never sees a half-populated registry, and a refresh that finds
//! zero monitors is not an error.
//!
//! The device writes themselves are performed by the surrounding process:
//! for each batch operation the registry first computes the raw value to
//! write per monitor (`*_targets`), the caller performs the writes, and
//! the batch operation then takes one outcome flag per monitor, updates
//! the recorded state of exactly the monitors whose write succeeded, and
//! reports an aggregate error if any write failed.  On such an error the
//! caller refreshes the registry once; `turn_off`/`turn_on` are then
//! retried once as a whole batch.

use vstd::prelude::*;

use crate::errors::BacklightError;
use crate::numtext::all_digits;
use crate::numtext::digits_val;
use crate::numtext::parse_digits_capped;
use crate::numtext::trim_range;
use crate::numtext::trimmed;

verus! {

/// Seconds after which the monitor list counts as stale and the refresh
/// loop re-enumerates the devices.
pub const MONITORS_REFRESH_INTERVAL_SECS: u64 = 60;

/// Which control channel a monitor is driven through.
#[derive(Clone, Copy, Debug, PartialEq, Eq, Structural)]
pub enum BackendKind {
    /// A firmware-exposed raw brightness value; no power control.
    Acpi,
    /// The device-bus brightness/power protocol.
    Ddc,
}

/// One discovered monitor: its identity, backend, native brightness range
/// and the last state written to or read from it.
#[derive(Debug, PartialEq)]
pub struct Monitor {
    pub name: String,
    pub kind: BackendKind,
    pub max_raw: u16,
    pub raw: u16,
    pub percent: u8,
}

/// The raw value that encodes `percent` in a backend whose range is
/// `0..=max_raw`: `round(percent / 100 * max_raw)`.
pub open spec fn raw_for_percent(percent: int, max_raw: int) -> int {
    (percent * max_raw + 50) / 100
}

/// A monitor after a successful brightness write of `p` percent: the raw
/// value converted with rounding, and the requested percentage recorded.
pub open spec fn with_percent(m: Monitor, p: int) -> Monitor {
    Monitor {
        raw: raw_for_percent(p, m.max_raw as int) as u16,
        percent: p as u8,
        ..m
    }
}

/// The new percentage after an increase by `delta`: `min(100, cur + delta)`.
pub open spec fn increased_percent(cur: int, delta: int) -> int {
    if cur + delta > 100 {
        100
    } else {
        cur + delta
    }
}

/// The new percentage after a decrease by `delta`: `max(1, cur - delta)`;
/// never 0, so a decrease cannot leave a screen fully black.
pub open spec fn decreased_percent(cur: int, delta: int) -> int {
    if cur - delta < 1 {
        1
    } else {
        cur - delta
    }
}

/// Whether a power write against monitor `m` with device outcome `ok`
/// counts as failed: the firmware backend has no power control at all,
/// and a bus write fails when the device reported failure.
pub open spec fn power_failure(m: Monitor, ok: bool) -> bool {
    m.kind is Acpi || !ok
}

/// The error a failed power write surfaces for monitor `m`.
pub open spec fn power_error(m: Monitor) -> BacklightError {
    if m.kind is Acpi {
        BacklightError::NotSupported
    } else {
        BacklightError::Device
    }
}

/// What a firmware brightness file reads as: a run of decimal digits
/// around optional whitespace, within the raw value range.
pub open spec fn sysfs_value_of(s: Seq<u8>) -> Option<int> {
    let t = trimmed(s);
    if t.len() > 0 && all_digits(t) && digits_val(t) <= u16::MAX {
        Some(digits_val(t))
    } else {
        None
    }
}

/// Reads the text of a firmware brightness file (the current or maximum
/// raw value) as a raw brightness value.
pub fn parse_raw_brightness(s: &[u8]) -> (r: Option<u16>)
    ensures
        match sysfs_value_of(s@) {
            Some(v) => r matches Some(x) && x == v,
            None => r is None,
        },
{
    proof {
        assert(s@.subrange(0, s@.len() as int) =~= s@);
    }
    let (a, b) = trim_range(s, 0, s.len());
    if a == b {
        return None;
    }
    match parse_digits_capped(s, a, b, 65535) {
        Some(v) => Some(v as u16),
        None => None,
    }
}

/// Bounds of the rounding conversion: the raw value for a percentage
/// within 0-100 stays within the backend's range.
proof fn lemma_raw_for_percent_bounds(percent: int, max_raw: int)
    requires
        0 <= percent <= 100,
        0 < max_raw,
    ensures
        0 <= raw_for_percent(percent, max_raw) <= max_raw,
{
    assert(percent * max_raw <= 100 * max_raw) by (nonlinear_arith)
        requires 0 <= percent <= 100, 0 < max_raw;
    assert(percent * max_raw >= 0) by (nonlinear_arith)
        requires 0 <= percent, 0 < max_raw;
    assert((100 * max_raw + 50) / 100 == max_raw) by (nonlinear_arith)
        requires 0 < max_raw;
    vstd::arithmetic::div_mod::lemma_div_is_ordered(
        percent * max_raw + 50,
        100 * max_raw + 50,
        100,
    );
}

/// Converts a percentage to the backend's raw range with rounding.
pub fn percent_to_raw(percent: u8, max_raw: u16) -> (r: u16)
    requires
        percent <= 100,
        0 < max_raw,
    ensures
        r as int == raw_for_percent(percent as int, max_raw as int),
        r <= max_raw,
{
    proof {
        lemma_raw_for_percent_bounds(percent as int, max_raw as int);
    }
    let v: u32 = ((percent as u32) * (max_raw as u32) + 50) / 100;
    v as u16
}

impl Monitor {
    /// The record is internally consistent: a positive native range, a
    /// raw value within it, and a percentage within 0-100.
    pub open spec fn wf(self) -> bool {
        &&& 0 < self.max_raw
        &&& self.raw <= self.max_raw
        &&& self.percent <= 100
    }

    /// Builds the record for a newly discovered monitor from its name,
    /// backend, native range and current raw reading; the percentage
    /// derives from the reading as `raw * 100 / max_raw`.
    pub fn new(name: String, kind: BackendKind, max_raw: u16, raw: u16) -> (m: Monitor)
        requires
            0 < max_raw,
            raw <= max_raw,
        ensures
            m.wf(),
            m.name == name,
            m.kind == kind,
            m.max_raw == max_raw,
            m.raw == raw,
            m.percent as int == (raw as int * 100) / (max_raw as int),
    {
        proof {
            assert(raw as int * 100 <= max_raw as int * 100) by (nonlinear_arith)
                requires raw <= max_raw;
            assert(0 <= raw as int * 100) by (nonlinear_arith)
                requires 0 <= raw;
            assert((max_raw as int * 100) / (max_raw as int) == 100) by (nonlinear_arith)
                requires 0 < max_raw;
            vstd::arithmetic::div_mod::lemma_div_is_ordered(
                raw as int * 100,
                max_raw as int * 100,
                max_raw as int,
            );
            vstd::arithmetic::div_mod::lemma_div_pos_is_pos(raw as int * 100, max_raw as int);
        }
        let percent_wide: u32 = (raw as u32) * 100 / (max_raw as u32);
        Monitor { name, kind, max_raw, raw, percent: percent_wide as u8 }
    }
}

/// The update conversion keeps a monitor well formed.
proof fn lemma_with_percent_wf(m: Monitor, p: int)
    requires
        m.wf(),
        0 <= p <= 100,
    ensures
        with_percent(m, p).wf(),
        with_percent(m, p).percent == p,
        with_percent(m, p).name == m.name,
        with_percent(m, p).kind == m.kind,
        with_percent(m, p).max_raw == m.max_raw,
{
    lemma_raw_for_percent_bounds(p, m.max_raw as int);
}

/// The sum of the recorded percentages of a monitor sequence.
pub open spec fn sum_percents(s: Seq<Monitor>) -> int
    decreases s.len(),
{
    if s.len() == 0 {
        0
    } else {
        sum_percents(s.drop_last()) + s.last().percent
    }
}

/// The ordered collection of known monitors, plus the instant (seconds on
/// a monotonic clock) of the last refresh.
pub struct MonitorRegistry {
    pub monitors: Vec<Monitor>,
    pub last_refresh: Option<u64>,
}

/// Whether the registry must be re-enumerated at instant `now`: it never
/// was, or the last refresh is more than the refresh interval old.
pub open spec fn refresh_due(last_refresh: Option<u64>, now: u64) -> bool {
    match last_refresh {
        None => true,
        Some(t) => t <= now && now - t > MONITORS_REFRESH_INTERVAL_SECS,
    }
}

impl MonitorRegistry {
    /// Every monitor record is well formed.
    pub open spec fn wf(self) -> bool {
        forall|i: int| 0 <= i < self.monitors@.len() ==> (#[trigger] self.monitors@[i]).wf()
    }

    /// An empty registry, before the first refresh.
    pub fn new() -> (reg: MonitorRegistry)
        ensures
            reg.monitors@.len() == 0,
            reg.last_refresh is None,
            reg.wf(),
    {
        MonitorRegistry { monitors: Vec::new(), last_refresh: None }
    }

    /// Whether the refresh loop must re-enumerate the devices at `now`.
    pub fn needs_refresh(&self, now: u64) -> (r: bool)
        ensures
            r == refresh_due(self.last_refresh, now),
    {
        match self.last_refresh {
            None => true,
            Some(t) => t <= now && now - t > MONITORS_REFRESH_INTERVAL_SECS,
        }
    }

    /// Replaces the whole monitor list with a freshly enumerated one and
    /// records the refresh instant.  An empty list is not an error.
    pub fn refresh_with(&mut self, new_monitors: Vec<Monitor>, now: u64)
        requires
            forall|i: int| 0 <= i < new_monitors@.len() ==> (#[trigger] new_monitors@[i]).wf(),
        ensures
            final(self).monitors == new_monitors,
            final(self).last_refresh == Some(now),
            final(self).wf(),
    {
        self.monitors = new_monitors;
        self.last_refresh = Some(now);
    }

    /// The raw value to write to each monitor for a uniform brightness of
    /// `percent`, in registry order.
    pub fn set_brightness_targets(&self, percent: u8) -> (v: Vec<u16>)
        requires
            percent <= 100,
            self.wf(),
        ensures
            v@.len() == self.monitors@.len(),
            forall|i: int| 0 <= i < v@.len() ==> #[trigger] v@[i] as int
                == raw_for_percent(percent as int, self.monitors@[i].max_raw as int),
    {
        let mut v: Vec<u16> = Vec::new();
        let mut idx: usize = 0;
        while idx < self.monitors.len()
            invariant
                percent <= 100,
                self.wf(),
                idx <= self.monitors@.len(),
                v@.len() == idx,
                forall|i: int| 0 <= i < idx ==> #[trigger] v@[i] as int
                    == raw_for_percent(percent as int, self.monitors@[i].max_raw as int),
            decreases self.monitors@.len() - idx,
        {
            let target = percent_to_raw(percent, self.monitors[idx].max_raw);
            v.push(target);
            idx = idx + 1;
        }
        v
    }

    /// The raw value to write to each monitor for an increase by `delta`,
    /// in registry order: each monitor moves to `min(100, current + delta)`.
    pub fn increase_brightness_targets(&self, delta: u8) -> (v: Vec<u16>)
        requires
            delta <= 100,
            self.wf(),
        ensures
            v@.len() == self.monitors@.len(),
            forall|i: int| 0 <= i < v@.len() ==> #[trigger] v@[i] as int
                == raw_for_percent(
                    increased_percent(self.monitors@[i].percent as int, delta as int),
                    self.monitors@[i].max_raw as int,
                ),
    {
        let mut v: Vec<u16> = Vec::new();
        let mut idx: usize = 0;
        while idx < self.monitors.len()
            invariant
                delta <= 100,
                self.wf(),
                idx <= self.monitors@.len(),
                v@.len() == idx,
                forall|i: int| 0 <= i < idx ==> #[trigger] v@[i] as int
                    == raw_for_percent(
                        increased_percent(self.monitors@[i].percent as int, delta as int),
                        self.monitors@[i].max_raw as int,
                    ),
            decreases self.monitors@.len() - idx,
        {
            let target_percent = increase_target(self.monitors[idx].percent, delta);
            let target = percent_to_raw(target_percent, self.monitors[idx].max_raw);
            v.push(target);
            idx = idx + 1;
        }
        v
    }

    /// The raw value to write to each monitor for a decrease by `delta`,
    /// in registry order: each monitor moves to `max(1, current - delta)`.
    pub fn decrease_brightness_targets(&self, delta: u8) -> (v: Vec<u16>)
        requires
            self.wf(),
        ensures
            v@.len() == self.monitors@.len(),
            forall|i: int| 0 <= i < v@.len() ==> #[trigger] v@[i] as int
                == raw_for_percent(
                    decreased_percent(self.monitors@[i].percent as int, delta as int),
                    self.monitors@[i].max_raw as int,
                ),
    {
        let mut v: Vec<u16> = Vec::new();
        let mut idx: usize = 0;
        while idx < self.monitors.len()
            invariant
                self.wf(),
                idx <= self.monitors@.len(),
                v@.len() == idx,
                forall|i: int| 0 <= i < idx ==> #[trigger] v@[i] as int
                    == raw_for_percent(
                        decreased_percent(self.monitors@[i].percent as int, delta as int),
                        self.monitors@[i].max_raw as int,
                    ),
            decreases self.monitors@.len() - idx,
        {
            let target_percent = decrease_target(self.monitors[idx].percent, delta);
            let target = percent_to_raw(target_percent, self.monitors[idx].max_raw);
            v.push(target);
            idx = idx + 1;
        }
        v
    }

    /// Records the outcomes of a uniform brightness write: monitor `i`
    /// moves to `percent` exactly when `write_ok[i]`; the others keep
    /// their state.  Any failure surfaces as a device error after every
    /// monitor has been attempted; the caller then refreshes the registry
    /// once and still returns the error.
    pub fn set_brightness_percent(&mut self, percent: u8, write_ok: &Vec<bool>) -> (r: Result<
        (),
        BacklightError,
    >)
        requires
            percent <= 100,
            old(self).wf(),
            write_ok@.len() == old(self).monitors@.len(),
        ensures
            final(self).wf(),
            final(self).last_refresh == old(self).last_refresh,
            final(self).monitors@.len() == old(self).monitors@.len(),
            forall|i: int| 0 <= i < final(self).monitors@.len() ==> #[trigger] final(self).monitors@[i] == (if write_ok@[i] {
                with_percent(old(self).monitors@[i], percent as int)
            } else {
                old(self).monitors@[i]
            }),
            (r is Ok) <==> (forall|i: int| 0 <= i < write_ok@.len() ==> #[trigger] write_ok@[i]),
            r is Err ==> r == Err::<(), BacklightError>(BacklightError::Device),
    {
        let mut idx: usize = 0;
        let mut any_failed = false;
        while idx < self.monitors.len()
            invariant
                percent <= 100,
                old(self).wf(),
                write_ok@.len() == old(self).monitors@.len(),
                self.monitors@.len() == old(self).monitors@.len(),
                self.last_refresh == old(self).last_refresh,
                idx <= self.monitors@.len(),
                forall|i: int| 0 <= i < idx ==> #[trigger] self.monitors@[i]
                    == (if write_ok@[i] {
                        with_percent(old(self).monitors@[i], percent as int)
                    } else {
                        old(self).monitors@[i]
                    }),
                forall|i: int| idx <= i < self.monitors@.len() ==> #[trigger] self.monitors@[i]
                    == old(self).monitors@[i],
                any_failed <==> exists|i: int| 0 <= i < idx && !(#[trigger] write_ok@[i]),
            decreases self.monitors@.len() - idx,
        {
            if write_ok[idx] {
                proof {
                    lemma_with_percent_wf(self.monitors@[idx as int], percent as int);
                }
                let raw = percent_to_raw(percent, self.monitors[idx].max_raw);
                self.monitors[idx].raw = raw;
                self.monitors[idx].percent = percent;
            } else {
                any_failed = true;
            }
            idx = idx + 1;
        }
        proof {
            assert forall|i: int| 0 <= i < self.monitors@.len() implies (
                #[trigger] self.monitors@[i]).wf() by {
                if write_ok@[i] {
                    lemma_with_percent_wf(old(self).monitors@[i], percent as int);
                }
            }
        }
        if any_failed {
            Err(BacklightError::Device)
        } else {
            Ok(())
        }
    }

    /// Records the outcomes of an increase by `delta`: monitor `i` moves
    /// to `min(100, current + delta)` exactly when `write_ok[i]`.
    pub fn increase_brightness_percent(&mut self, delta: u8, write_ok: &Vec<bool>) -> (r: Result<
        (),
        BacklightError,
    >)
        requires
            delta <= 100,
            old(self).wf(),
            write_ok@.len() == old(self).monitors@.len(),
        ensures
            final(self).wf(),
            final(self).last_refresh == old(self).last_refresh,
            final(self).monitors@.len() == old(self).monitors@.len(),
            forall|i: int| 0 <= i < final(self).monitors@.len() ==> #[trigger] final(self).monitors@[i] == (if write_ok@[i] {
                with_percent(
                    old(self).monitors@[i],
                    increased_percent(old(self).monitors@[i].percent as int, delta as int),
                )
            } else {
                old(self).monitors@[i]
            }),
            (r is Ok) <==> (forall|i: int| 0 <= i < write_ok@.len() ==> #[trigger] write_ok@[i]),
            r is Err ==> r == Err::<(), BacklightError>(BacklightError::Device),
    {
        let mut idx: usize = 0;
        let mut any_failed = false;
        while idx < self.monitors.len()
            invariant
                delta <= 100,
                old(self).wf(),
                write_ok@.len() == old(self).monitors@.len(),
                self.monitors@.len() == old(self).monitors@.len(),
                self.last_refresh == old(self).last_refresh,
                idx <= self.monitors@.len(),
                forall|i: int| 0 <= i < idx ==> #[trigger] self.monitors@[i]
                    == (if write_ok@[i] {
                        with_percent(
                            old(self).monitors@[i],
                            increased_percent(old(self).monitors@[i].percent as int, delta as int),
                        )
                    } else {
                        old(self).monitors@[i]
                    }),
                forall|i: int| idx <= i < self.monitors@.len() ==> #[trigger] self.monitors@[i]
                    == old(self).monitors@[i],
                any_failed <==> exists|i: int| 0 <= i < idx && !(#[trigger] write_ok@[i]),
            decreases self.monitors@.len() - idx,
        {
            if write_ok[idx] {
                let target_percent = increase_target(self.monitors[idx].percent, delta);
                proof {
                    lemma_with_percent_wf(self.monitors@[idx as int], target_percent as int);
                }
                let raw = percent_to_raw(target_percent, self.monitors[idx].max_raw);
                self.monitors[idx].raw = raw;
                self.monitors[idx].percent = target_percent;
            } else {
                any_failed = true;
            }
            idx = idx + 1;
        }
        proof {
            assert forall|i: int| 0 <= i < self.monitors@.len() implies (
                #[trigger] self.monitors@[i]).wf() by {
                if write_ok@[i] {
                    lemma_with_percent_wf(
                        old(self).monitors@[i],
                        increased_percent(old(self).monitors@[i].percent as int, delta as int),
                    );
                }
            }
        }
        if any_failed {
            Err(BacklightError::Device)
        } else {
            Ok(())
        }
    }

    /// Records the outcomes of a decrease by `delta`: monitor `i` moves
    /// to `max(1, current - delta)` exactly when `write_ok[i]`.
    pub fn decrease_brightness_percent(&mut self, delta: u8, write_ok: &Vec<bool>) -> (r: Result<
        (),
        BacklightError,
    >)
        requires
            old(self).wf(),
            write_ok@.len() == old(self).monitors@.len(),
        ensures
            final(self).wf(),
            final(self).last_refresh == old(self).last_refresh,
            final(self).monitors@.len() == old(self).monitors@.len(),
            forall|i: int| 0 <= i < final(self).monitors@.len() ==> #[trigger] final(self).monitors@[i] == (if write_ok@[i] {
                with_percent(
                    old(self).monitors@[i],
                    decreased_percent(old(self).monitors@[i].percent as int, delta as int),
                )
            } else {
                old(self).monitors@[i]
            }),
            (r is Ok) <==> (forall|i: int| 0 <= i < write_ok@.len() ==> #[trigger] write_ok@[i]),
            r is Err ==> r == Err::<(), BacklightError>(BacklightError::Device),
    {
        let mut idx: usize = 0;
        let mut any_failed = false;
        while idx < self.monitors.len()
            invariant
                old(self).wf(),
                write_ok@.len() == old(self).monitors@.len(),
                self.monitors@.len() == old(self).monitors@.len(),
                self.last_refresh == old(self).last_refresh,
                idx <= self.monitors@.len(),
                forall|i: int| 0 <= i < idx ==> #[trigger] self.monitors@[i]
                    == (if write_ok@[i] {
                        with_percent(
                            old(self).monitors@[i],
                            decreased_percent(old(self).monitors@[i].percent as int, delta as int),
                        )
                    } else {
                        old(self).monitors@[i]
                    }),
                forall|i: int| idx <= i < self.monitors@.len() ==> #[trigger] self.monitors@[i]
                    == old(self).monitors@[i],
                any_failed <==> exists|i: int| 0 <= i < idx && !(#[trigger] write_ok@[i]),
            decreases self.monitors@.len() - idx,
        {
            if write_ok[idx] {
                let target_percent = decrease_target(self.monitors[idx].percent, delta);
                proof {
                    lemma_with_percent_wf(self.monitors@[idx as int], target_percent as int);
                }
                let raw = percent_to_raw(target_percent, self.monitors[idx].max_raw);
                self.monitors[idx].raw = raw;
                self.monitors[idx].percent = target_percent;
            } else {
                any_failed = true;
            }
            idx = idx + 1;
        }
        proof {
            assert forall|i: int| 0 <= i < self.monitors@.len() implies (
                #[trigger] self.monitors@[i]).wf() by {
                if write_ok@[i] {
                    lemma_with_percent_wf(
                        old(self).monitors@[i],
                        decreased_percent(old(self).monitors@[i].percent as int, delta as int),
                    );
                }
            }
        }
        if any_failed {
            Err(BacklightError::Device)
        } else {
            Ok(())
        }
    }

    /// One batch of power writes: `power_ok[i]` is the device outcome for
    /// monitor `i` (ignored for backends without power control, which
    /// fail with `NotSupported`).  The recorded monitor state carries no
    /// power bit, so the registry itself is untouched; the result is `Ok`
    /// exactly when every monitor accepted the write, and otherwise the
    /// error of the last failing monitor.
    fn power_batch(&self, power_ok: &Vec<bool>) -> (r: Result<(), BacklightError>)
        requires
            power_ok@.len() == self.monitors@.len(),
        ensures
            (r is Ok) <==> (forall|i: int| 0 <= i < self.monitors@.len()
                ==> !power_failure(#[trigger] self.monitors@[i], power_ok@[i])),
            r matches Err(e) ==> exists|i: int| 0 <= i < self.monitors@.len()
                && power_failure(#[trigger] self.monitors@[i], power_ok@[i])
                && e == power_error(self.monitors@[i])
                && (forall|j: int| i < j < self.monitors@.len()
                    ==> !power_failure(#[trigger] self.monitors@[j], power_ok@[j])),
    {
        let mut idx: usize = 0;
        let mut last_err: Option<BacklightError> = None;
        let ghost mut last_fail: int = 0;
        while idx < self.monitors.len()
            invariant
                power_ok@.len() == self.monitors@.len(),
                idx <= self.monitors@.len(),
                last_err is None ==> forall|i: int| 0 <= i < idx
                    ==> !power_failure(#[trigger] self.monitors@[i], power_ok@[i]),
                last_err matches Some(e) ==> 0 <= last_fail < idx
                    && power_failure(self.monitors@[last_fail], power_ok@[last_fail])
                    && e == power_error(self.monitors@[last_fail])
                    && (forall|j: int| last_fail < j < idx
                        ==> !power_failure(#[trigger] self.monitors@[j], power_ok@[j])),
            decreases self.monitors@.len() - idx,
        {
            let failed = match self.monitors[idx].kind {
                BackendKind::Acpi => true,
                BackendKind::Ddc => !power_ok[idx],
            };
            if failed {
                let e = match self.monitors[idx].kind {
                    BackendKind::Acpi => BacklightError::NotSupported,
                    BackendKind::Ddc => BacklightError::Device,
                };
                last_err = Some(e);
                proof {
                    last_fail = idx as int;
                }
            }
            idx = idx + 1;
        }
        match last_err {
            None => Ok(()),
            Some(e) => Err(e),
        }
    }

    /// Turns every monitor off, given one device outcome per monitor;
    /// `Ok` exactly when every monitor accepted the write.  On an error
    /// the caller refreshes the registry and retries the whole batch
    /// exactly once; the second error is returned.
    pub fn turn_off(&self, power_ok: &Vec<bool>) -> (r: Result<(), BacklightError>)
        requires
            power_ok@.len() == self.monitors@.len(),
        ensures
            (r is Ok) <==> (forall|i: int| 0 <= i < self.monitors@.len()
                ==> !power_failure(#[trigger] self.monitors@[i], power_ok@[i])),
            r matches Err(e) ==> exists|i: int| 0 <= i < self.monitors@.len()
                && power_failure(#[trigger] self.monitors@[i], power_ok@[i])
                && e == power_error(self.monitors@[i])
                && (forall|j: int| i < j < self.monitors@.len()
                    ==> !power_failure(#[trigger] self.monitors@[j], power_ok@[j])),
    {
        self.power_batch(power_ok)
    }

    /// Turns every monitor on; the contract mirrors `turn_off`.
    pub fn turn_on(&self, power_ok: &Vec<bool>) -> (r: Result<(), BacklightError>)
        requires
            power_ok@.len() == self.monitors@.len(),
        ensures
            (r is Ok) <==> (forall|i: int| 0 <= i < self.monitors@.len()
                ==> !power_failure(#[trigger] self.monitors@[i], power_ok@[i])),
            r matches Err(e) ==> exists|i: int| 0 <= i < self.monitors@.len()
                && power_failure(#[trigger] self.monitors@[i], power_ok@[i])
                && e == power_error(self.monitors@[i])
                && (forall|j: int| i < j < self.monitors@.len()
                    ==> !power_failure(#[trigger] self.monitors@[j], power_ok@[j])),
    {
        self.power_batch(power_ok)
    }

    /// The integer average (floor) of all recorded percentages; 0 over an
    /// empty registry, so a refresh that found no monitors stays harmless.
    pub fn get_average_brightness(&self) -> (r: u8)
        requires
            self.wf(),
        ensures
            self.monitors@.len() == 0 ==> r == 0,
            self.monitors@.len() > 0 ==> r as int
                == sum_percents(self.monitors@) / self.monitors@.len() as int,
            r <= 100,
    {
        let n = self.monitors.len();
        if n == 0 {
            return 0;
        }
        let mut sum: u128 = 0;
        let mut idx: usize = 0;
        while idx < n
            invariant
                self.wf(),
                n == self.monitors@.len(),
                idx <= n,
                sum == sum_percents(self.monitors@.take(idx as int)),
                sum <= 100 * idx,
            decreases n - idx,
        {
            proof {
                assert(self.monitors@.take(idx as int + 1).drop_last()
                    =~= self.monitors@.take(idx as int));
                assert(self.monitors@.take(idx as int + 1).last() == self.monitors@[idx as int]);
            }
            sum = sum + self.monitors[idx].percent as u128;
            idx = idx + 1;
        }
        proof {
            assert(self.monitors@.take(n as int) =~= self.monitors@);
            let total = sum_percents(self.monitors@);
            let len = self.monitors@.len() as int;
            assert((100 * len) / len == 100) by (nonlinear_arith)
                requires len > 0;
            vstd::arithmetic::div_mod::lemma_div_is_ordered(total, 100 * len, len);
            vstd::arithmetic::div_mod::lemma_div_pos_is_pos(total, len);
        }
        (sum / (n as u128)) as u8
    }
}

/// The percentage after an increase by `delta`, clamped so it never
/// exceeds 100.
pub fn increase_target(cur: u8, delta: u8) -> (r: u8)
    requires
        cur <= 100,
        delta <= 100,
    ensures
        r as int == increased_percent(cur as int, delta as int),
        r <= 100,
{
    let sum: u16 = cur as u16 + delta as u16;
    if sum > 100 {
        100
    } else {
        sum as u8
    }
}

/// The percentage after a decrease by `delta`, clamped so it never drops
/// below 1.
pub fn decrease_target(cur: u8, delta: u8) -> (r: u8)
    requires
        cur <= 100,
    ensures
        r as int == decreased_percent(cur as int, delta as int),
        1 <= r <= 100,
{
    if cur > delta {
        cur - delta
    } else {
        1
    }
}

} // verus!
