//! Location resolution: the fixed-point coordinate model, the parser for
//! an explicitly configured "lat,long" value, the cached-location record
//! with its freshness policy, and the resolution decision itself.
//!
//! Coordinates are modelled in microdegrees (millionths of a degree), so
//! the whole resolution logic works on plain integers.  The parser reads
//! a signed decimal with an optional fractional part and keeps the first
//! six fractional digits, the model's precision.
//!
//! Resolution order, each step short-circuiting: an explicitly configured
//! location (a parse error there is surfaced, not skipped), then - unless
//! the remote lookup is disabled - a cached location fresher than twelve
//! hours, then a remote lookup; when everything fails the caller falls
//! back to the clock-only brightness curve.

use vstd::prelude::*;

use crate::errors::BacklightError;
use crate::numtext::all_digits;
use crate::numtext::digits_val;
use crate::numtext::is_ascii_digit;
use crate::numtext::lemma_all_digits_take;
use crate::numtext::lemma_digits_val_nonneg;
use crate::numtext::lemma_digits_val_upper;
use crate::numtext::lemma_pow10_add;
use crate::numtext::lemma_pow10_pos;
use crate::numtext::trim_range;
use crate::numtext::trimmed;
use crate::numtext::parse_digits_capped;
use crate::numtext::pow10;

verus! {

/// Seconds after which a cached location is stale (12 hours).
pub const LOCATION_REFRESH_SECS: u64 = 43200;

/// Largest whole-degree magnitude the parser accepts.
pub const MAX_WHOLE_DEGREES: u64 = 999_999_999;

/// Largest coordinate magnitude, in microdegrees; also the largest
/// timestamp the cache record carries.
pub const MICRO_ABS_MAX: i64 = 999_999_999_999_999;

/// A resolved geographic position, in microdegrees.
#[derive(Clone, Copy, Debug, PartialEq, Eq, Structural)]
pub struct Location {
    pub latitude_microdeg: i64,
    pub longitude_microdeg: i64,
}

/// The last successfully resolved location and when it was resolved
/// (seconds since the epoch; 0 means never).
#[derive(Clone, Copy, Debug, PartialEq, Eq, Structural)]
pub struct LastKnownLocation {
    pub latitude_microdeg: i64,
    pub longitude_microdeg: i64,
    pub timestamp: u64,
}

impl LastKnownLocation {
    /// Coordinates and timestamp stay within the model's bounds.
    pub open spec fn wf(self) -> bool {
        &&& -MICRO_ABS_MAX <= self.latitude_microdeg <= MICRO_ABS_MAX
        &&& -MICRO_ABS_MAX <= self.longitude_microdeg <= MICRO_ABS_MAX
        &&& self.timestamp <= MICRO_ABS_MAX as u64
    }

    /// Whether the cache file must still be consulted: only before the
    /// first successful resolution.
    pub fn should_load_cache_file(&self) -> (r: bool)
        ensures
            r == (self.timestamp == 0),
    {
        self.timestamp == 0
    }

    /// Records a successful remote lookup.  The caller then best-effort
    /// persists the record; a persistence failure is logged, not
    /// propagated.
    pub fn absorb_remote(&mut self, found: Location, now: u64)
        requires
            -MICRO_ABS_MAX <= found.latitude_microdeg <= MICRO_ABS_MAX,
            -MICRO_ABS_MAX <= found.longitude_microdeg <= MICRO_ABS_MAX,
            now <= MICRO_ABS_MAX as u64,
        ensures
            *final(self) == (LastKnownLocation {
                latitude_microdeg: found.latitude_microdeg,
                longitude_microdeg: found.longitude_microdeg,
                timestamp: now,
            }),
            final(self).wf(),
    {
        self.latitude_microdeg = found.latitude_microdeg;
        self.longitude_microdeg = found.longitude_microdeg;
        self.timestamp = now;
    }

    /// The position this record remembers.
    pub fn location(&self) -> (r: Location)
        ensures
            r == (Location {
                latitude_microdeg: self.latitude_microdeg,
                longitude_microdeg: self.longitude_microdeg,
            }),
    {
        Location {
            latitude_microdeg: self.latitude_microdeg,
            longitude_microdeg: self.longitude_microdeg,
        }
    }
}

impl Default for LastKnownLocation {
    /// Before anything was resolved: zero coordinates, timestamp unset.
    fn default() -> (r: Self)
        ensures
            r == (LastKnownLocation {
                latitude_microdeg: 0,
                longitude_microdeg: 0,
                timestamp: 0,
            }),
            r.wf(),
    {
        LastKnownLocation { latitude_microdeg: 0, longitude_microdeg: 0, timestamp: 0 }
    }
}

/// Whether the cached location no longer counts at instant `now`: it was
/// never set, or it is older than the refresh interval.
pub open spec fn cache_expired(cache: LastKnownLocation, now: u64) -> bool {
    ||| cache.timestamp == 0
    ||| (now > cache.timestamp && now - cache.timestamp > LOCATION_REFRESH_SECS)
}

/// Whether the remote lookup must run at instant `now`, given the cache.
pub fn needs_remote_lookup(cache: &LastKnownLocation, now: u64) -> (r: bool)
    ensures
        r == cache_expired(*cache, now),
{
    cache.timestamp == 0 || (now > cache.timestamp && now - cache.timestamp
        > LOCATION_REFRESH_SECS)
}

// ---------------------------------------------------------------------
// The "lat,long" parser and its grammar.
// ---------------------------------------------------------------------

/// The microdegree value of a fractional digit run: its first six digits,
/// padded with zeros on the right up to the model's precision.
pub open spec fn frac_micro(s: Seq<u8>) -> int {
    if s.len() >= 6 {
        digits_val(s.take(6))
    } else {
        digits_val(s) * pow10((6 - s.len()) as nat)
    }
}

/// Whether `k` splits `s` into a whole digit run, one dot, and a
/// fractional digit run (one of the runs may be empty, not both).
pub open spec fn dot_split_at(s: Seq<u8>, k: int) -> bool {
    &&& 0 <= k < s.len()
    &&& s.len() > 1
    &&& s[k] == 46
    &&& all_digits(s.take(k))
    &&& all_digits(s.skip(k + 1))
}

/// The microdegree value of an unsigned decimal: either a plain digit
/// run, or two runs split by one dot.  A whole part above the accepted
/// magnitude reads as nothing.
pub open spec fn unsigned_micro_of(s: Seq<u8>) -> Option<int> {
    if s.len() > 0 && all_digits(s) {
        if digits_val(s) <= MAX_WHOLE_DEGREES {
            Some(digits_val(s) * 1_000_000)
        } else {
            None
        }
    } else if exists|k: int| dot_split_at(s, k) {
        let k = choose|k: int| dot_split_at(s, k);
        if digits_val(s.take(k)) <= MAX_WHOLE_DEGREES {
            Some(digits_val(s.take(k)) * 1_000_000 + frac_micro(s.skip(k + 1)))
        } else {
            None
        }
    } else {
        None
    }
}

/// The microdegree value of a decimal with an optional leading sign.
pub open spec fn signed_micro_of(s: Seq<u8>) -> Option<int> {
    if s.len() > 0 && s[0] == 45 {
        match unsigned_micro_of(s.skip(1)) {
            Some(v) => Some(-v),
            None => None,
        }
    } else if s.len() > 0 && s[0] == 43 {
        unsigned_micro_of(s.skip(1))
    } else {
        unsigned_micro_of(s)
    }
}

/// Whether `k` is the first comma of `s`.
pub open spec fn comma_split_at(s: Seq<u8>, k: int) -> bool {
    &&& 0 <= k < s.len()
    &&& s[k] == 44
    &&& forall|j: int| 0 <= j < k ==> s[j] != 44
}

/// What a configured "lat,long" value reads as: the text splits at its
/// first comma and each side, trimmed, is a signed decimal.
pub open spec fn config_location_of(s: Seq<u8>) -> Option<(int, int)> {
    if exists|k: int| comma_split_at(s, k) {
        let k = choose|k: int| comma_split_at(s, k);
        match (signed_micro_of(trimmed(s.take(k))), signed_micro_of(trimmed(s.skip(k + 1)))) {
            (Some(lat), Some(lon)) => Some((lat, lon)),
            _ => None,
        }
    } else {
        None
    }
}

/// The power of ten that scales a fractional run of `6 - missing` digits
/// up to microdegrees.
fn frac_scale(missing: usize) -> (r: u64)
    requires
        missing <= 6,
    ensures
        r == pow10(missing as nat),
{
    proof {
        reveal_with_fuel(pow10, 8);
    }
    if missing == 0 {
        1
    } else if missing == 1 {
        10
    } else if missing == 2 {
        100
    } else if missing == 3 {
        1000
    } else if missing == 4 {
        10000
    } else if missing == 5 {
        100000
    } else {
        1000000
    }
}

/// Reads `s[start..end]` as a fractional digit run, in microdegrees.
#[verifier::loop_isolation(false)]
fn parse_fraction_micro(s: &[u8], start: usize, end: usize) -> (r: Option<u64>)
    requires
        start <= end <= s@.len(),
    ensures
        (r is Some) <==> all_digits(s@.subrange(start as int, end as int)),
        r matches Some(v) ==> v == frac_micro(s@.subrange(start as int, end as int)) && v
            < 1_000_000,
{
    let ghost sub = s@.subrange(start as int, end as int);
    let mut j: usize = start;
    while j < end
        invariant
            start <= j <= end,
            forall|i: int| 0 <= i < j - start ==> is_ascii_digit(#[trigger] sub[i]),
        decreases end - j,
    {
        let c = s[j];
        proof {
            assert(sub[j - start] == c);
        }
        if c < 48 || c > 57 {
            return None;
        }
        j = j + 1;
    }
    proof {
        assert(all_digits(sub));
    }
    let len = end - start;
    let took: usize = if len > 6 {
        6
    } else {
        len
    };
    proof {
        lemma_all_digits_take(sub, took as int);
        lemma_digits_val_upper(sub.take(took as int));
        reveal_with_fuel(pow10, 8);
        assert(sub.take(took as int).len() == took);
        if took < 6 {
            lemma_pow10_pos((6 - took) as nat);
        }
        assert(pow10(took as nat) <= 1_000_000) by {
            reveal_with_fuel(pow10, 8);
        }
        assert(s@.subrange(start as int, start as int + took as int) =~= sub.take(took as int));
    }
    match parse_digits_capped(s, start, start + took, 1_000_000) {
        Some(v) => {
            let scale = frac_scale(6 - took);
            proof {
                lemma_pow10_pos((6 - took) as nat);
                // v < pow10(took), so v * scale <= (pow10(took) - 1) * scale
                assert(v * scale <= (pow10(took as nat) - 1) * pow10((6 - took) as nat))
                    by (nonlinear_arith)
                    requires
                        v < pow10(took as nat),
                        scale == pow10((6 - took) as nat),
                        scale >= 1,
                ;
                lemma_pow10_add(took as nat, (6 - took) as nat);
                assert((pow10(took as nat) - 1) * pow10((6 - took) as nat) == pow10(6nat) - pow10(
                    (6 - took) as nat,
                )) by (nonlinear_arith)
                    requires
                        pow10(took as nat) * pow10((6 - took) as nat) == pow10(6nat),
                ;
                assert(pow10(6nat) == 1_000_000) by {
                    reveal_with_fuel(pow10, 8);
                }
                assert(pow10(0nat) == 1) by {
                    reveal_with_fuel(pow10, 1);
                }
                assert(v * scale < 1_000_000);
                if took == len {
                    assert(sub.take(took as int) =~= sub);
                    assert(v * scale == digits_val(sub) * pow10((6 - sub.len()) as nat));
                } else {
                    assert(sub.len() >= 6 && took == 6);
                    assert(scale == 1);
                    assert(v * scale == v) by (nonlinear_arith)
                        requires
                            scale == 1,
                    ;
                    assert(v == digits_val(sub.take(6)));
                }
                assert(v * scale == frac_micro(sub));
            }
            Some(v * scale)
        }
        None => {
            proof {
                lemma_digits_val_nonneg(sub.take(took as int));
                assert(false);
            }
            None
        }
    }
}

/// Reads `s[start..end]` as an unsigned decimal, in microdegrees.
#[verifier::loop_isolation(false)]
fn parse_unsigned_micro(s: &[u8], start: usize, end: usize) -> (r: Option<u64>)
    requires
        start <= end <= s@.len(),
    ensures
        match unsigned_micro_of(s@.subrange(start as int, end as int)) {
            Some(v) => r matches Some(x) && x == v,
            None => r is None,
        },
        r matches Some(x) ==> x <= 999_999_999_999_999,
{
    let ghost sub = s@.subrange(start as int, end as int);
    let mut i: usize = start;
    while i < end && s[i] != 46
        invariant
            start <= i <= end,
            forall|j: int| 0 <= j < i - start ==> sub[j] != 46,
        decreases end - i,
    {
        proof {
            assert(sub[i - start] == s@[i as int]);
        }
        i = i + 1;
    }
    if i == end {
        // no dot anywhere
        proof {
            assert forall|k: int| !dot_split_at(sub, k) by {
                if 0 <= k < sub.len() {
                    assert(sub[k] != 46);
                }
            }
        }
        if start == end {
            return None;
        }
        match parse_digits_capped(s, start, end, MAX_WHOLE_DEGREES) {
            Some(w) => {
                proof {
                    lemma_digits_val_nonneg(sub);
                }
                Some(w * 1_000_000)
            }
            None => None,
        }
    } else {
        let kk = i;
        proof {
            assert(sub[kk - start] == s@[kk as int]);
            assert(sub[kk - start] == 46);
        }
        if end - start < 2 {
            // the whole text is the dot alone
            proof {
                assert forall|k: int| !dot_split_at(sub, k) by {}
                assert(!(sub.len() > 0 && all_digits(sub))) by {
                    assert(!is_ascii_digit(sub[kk - start]));
                }
            }
            return None;
        }
        proof {
            // the dot makes the plain-run branch impossible
            assert(!is_ascii_digit(sub[kk - start]));
            // and kk - start is the only possible split point
            assert forall|k2: int| dot_split_at(sub, k2) implies k2 == kk - start by {
                if k2 < kk - start {
                    assert(sub[k2] != 46);
                } else if k2 > kk - start {
                    assert(is_ascii_digit(sub.take(k2)[kk - start]));
                    assert(sub.take(k2)[kk - start] == sub[kk - start]);
                }
            }
            assert(s@.subrange(start as int, kk as int) =~= sub.take(kk - start));
            assert(s@.subrange(kk as int + 1, end as int) =~= sub.skip(kk - start + 1));
        }
        let whole = parse_digits_capped(s, start, kk, MAX_WHOLE_DEGREES);
        let frac = parse_fraction_micro(s, kk + 1, end);
        match (whole, frac) {
            (Some(w), Some(f)) => {
                proof {
                    assert(dot_split_at(sub, kk - start));
                    let k = choose|k: int| dot_split_at(sub, k);
                    assert(k == kk - start);
                    lemma_digits_val_nonneg(sub.take(kk - start));
                }
                Some(w * 1_000_000 + f)
            }
            _ => {
                proof {
                    // no valid reading: whichever side failed refutes the
                    // single candidate split
                    if exists|k: int| dot_split_at(sub, k) {
                        let k = choose|k: int| dot_split_at(sub, k);
                        assert(k == kk - start);
                        if whole is None {
                            assert(all_digits(sub.take(kk - start)));
                            assert(digits_val(sub.take(kk - start)) > MAX_WHOLE_DEGREES);
                        }
                    }
                }
                None
            }
        }
    }
}

/// Reads `s[start..end]` as a signed decimal, in microdegrees.
fn parse_signed_micro(s: &[u8], start: usize, end: usize) -> (r: Option<i64>)
    requires
        start <= end <= s@.len(),
    ensures
        match signed_micro_of(s@.subrange(start as int, end as int)) {
            Some(v) => r matches Some(x) && x == v,
            None => r is None,
        },
        r matches Some(x) ==> -MICRO_ABS_MAX <= x <= MICRO_ABS_MAX,
{
    let ghost sub = s@.subrange(start as int, end as int);
    if start < end && s[start] == 45 {
        proof {
            assert(sub[0] == 45);
            assert(sub.skip(1) =~= s@.subrange(start as int + 1, end as int));
        }
        match parse_unsigned_micro(s, start + 1, end) {
            Some(v) => Some(-(v as i64)),
            None => None,
        }
    } else if start < end && s[start] == 43 {
        proof {
            assert(sub[0] == 43);
            assert(sub.skip(1) =~= s@.subrange(start as int + 1, end as int));
        }
        match parse_unsigned_micro(s, start + 1, end) {
            Some(v) => Some(v as i64),
            None => None,
        }
    } else {
        proof {
            if start < end {
                assert(sub[0] == s@[start as int]);
            }
        }
        match parse_unsigned_micro(s, start, end) {
            Some(v) => Some(v as i64),
            None => None,
        }
    }
}

/// Parses an explicitly configured "lat,long" value.  A malformed value
/// is a configuration error, surfaced to the caller rather than skipped.
#[verifier::loop_isolation(false)]
pub fn find_location_from_config(value: &[u8]) -> (r: Result<Location, BacklightError>)
    ensures
        match config_location_of(value@) {
            Some(p) => r matches Ok(loc) && loc.latitude_microdeg == p.0
                && loc.longitude_microdeg == p.1,
            None => r == Err::<Location, BacklightError>(BacklightError::Config),
        },
        r matches Ok(loc) ==> -MICRO_ABS_MAX <= loc.latitude_microdeg <= MICRO_ABS_MAX
            && -MICRO_ABS_MAX <= loc.longitude_microdeg <= MICRO_ABS_MAX,
{
    let n = value.len();
    let mut i: usize = 0;
    while i < n && value[i] != 44
        invariant
            0 <= i <= n,
            forall|j: int| 0 <= j < i ==> value@[j] != 44,
        decreases n - i,
    {
        i = i + 1;
    }
    if i == n {
        proof {
            assert forall|k: int| !comma_split_at(value@, k) by {
                if 0 <= k < value@.len() {
                    assert(value@[k] != 44);
                }
            }
        }
        return Err(BacklightError::Config);
    }
    proof {
        assert(comma_split_at(value@, i as int));
        assert forall|k: int| comma_split_at(value@, k) implies k == i as int by {
            if k < i {
                assert(value@[k] != 44);
            } else if k > i {
                assert(value@[i as int] != 44);
            }
        }
        let k = choose|k: int| comma_split_at(value@, k);
        assert(k == i as int);
    }
    let (a1, b1) = trim_range(value, 0, i);
    let lat = parse_signed_micro(value, a1, b1);
    let (a2, b2) = trim_range(value, i + 1, n);
    let lon = parse_signed_micro(value, a2, b2);
    proof {
        assert(value@.subrange(0, i as int) =~= value@.take(i as int));
        assert(value@.subrange(i as int + 1, n as int) =~= value@.skip(i as int + 1));
    }
    match (lat, lon) {
        (Some(la), Some(lo)) => Ok(Location { latitude_microdeg: la, longitude_microdeg: lo }),
        _ => Err(BacklightError::Config),
    }
}

// ---------------------------------------------------------------------
// The resolution decision.
// ---------------------------------------------------------------------

/// What the resolver decides before any outside work happens.
#[derive(Clone, Copy, Debug, PartialEq, Eq, Structural)]
pub enum LocationStep {
    /// The explicitly configured location wins outright.
    UseConfigured(Location),
    /// The explicitly configured value is malformed: surfaced, not skipped.
    ConfigInvalid,
    /// The cache is fresh enough; no remote call happens.
    UseCached(Location),
    /// The caller must attempt the remote lookup.
    QueryRemote,
    /// Lookup is disabled: fall back to the clock-only curve.
    NoLocation,
}

/// Whether an environment-style flag enables the remote lookup: enabled
/// by default when unset; set values `1`, `y` and `yes` enable it and
/// anything else disables it.
pub open spec fn lookup_enabled_of(v: Option<Seq<u8>>) -> bool {
    match v {
        None => true,
        Some(s) => (s.len() == 1 && s[0] == 49) || (s.len() == 1 && s[0] == 121) || (s.len() == 3
            && s[0] == 121 && s[1] == 101 && s[2] == 115),
    }
}

/// Evaluates the remote-lookup flag.
pub fn lookup_enabled(v: Option<&[u8]>) -> (r: bool)
    ensures
        v matches Some(s) ==> r == lookup_enabled_of(Some(s@)),
        v is None ==> r == lookup_enabled_of(None::<Seq<u8>>),
{
    match v {
        None => true,
        Some(s) => (s.len() == 1 && s[0] == 49) || (s.len() == 1 && s[0] == 121) || (s.len() == 3
            && s[0] == 121 && s[1] == 101 && s[2] == 115),
    }
}

/// The resolver's decision: explicit configuration always wins (and its
/// parse error is fatal to the call); otherwise a disabled lookup means
/// no location, a fresh cache is used as is, and only a stale or empty
/// cache sends the caller to the remote lookup.
pub open spec fn spec_location_plan(
    config: Option<Seq<u8>>,
    enabled: bool,
    cache: LastKnownLocation,
    now: u64,
) -> LocationStep {
    match config {
        Some(s) => match config_location_of(s) {
            Some(p) => LocationStep::UseConfigured(
                Location { latitude_microdeg: p.0 as i64, longitude_microdeg: p.1 as i64 },
            ),
            None => LocationStep::ConfigInvalid,
        },
        None => {
            if !enabled {
                LocationStep::NoLocation
            } else if !cache_expired(cache, now) {
                LocationStep::UseCached(
                    Location {
                        latitude_microdeg: cache.latitude_microdeg,
                        longitude_microdeg: cache.longitude_microdeg,
                    },
                )
            } else {
                LocationStep::QueryRemote
            }
        }
    }
}

/// Decides one resolution attempt from the configured value (if any), the
/// lookup flag, the cache and the clock.
pub fn find_location(
    config: Option<&[u8]>,
    enabled: bool,
    cache: &LastKnownLocation,
    now: u64,
) -> (r: LocationStep)
    ensures
        config matches Some(c) ==> r == spec_location_plan(Some(c@), enabled, *cache, now),
        config is None ==> r == spec_location_plan(None::<Seq<u8>>, enabled, *cache, now),
{
    match config {
        Some(c) => match find_location_from_config(c) {
            Ok(loc) => LocationStep::UseConfigured(loc),
            Err(_) => LocationStep::ConfigInvalid,
        },
        None => {
            if !enabled {
                LocationStep::NoLocation
            } else if !needs_remote_lookup(cache, now) {
                LocationStep::UseCached(cache.location())
            } else {
                LocationStep::QueryRemote
            }
        }
    }
}

/// Law: an explicitly configured location always decides the outcome by
/// itself; the cache, the clock and the lookup flag never matter.
pub proof fn lemma_config_wins(
    config: Seq<u8>,
    enabled: bool,
    cache: LastKnownLocation,
    now: u64,
)
    ensures
        config_location_of(config) matches Some(p) ==> spec_location_plan(
            Some(config),
            enabled,
            cache,
            now,
        ) == LocationStep::UseConfigured(
            Location { latitude_microdeg: p.0 as i64, longitude_microdeg: p.1 as i64 },
        ),
        config_location_of(config) is None ==> spec_location_plan(
            Some(config),
            enabled,
            cache,
            now,
        ) == LocationStep::ConfigInvalid,
{
}

/// Law: a cache younger than the refresh interval is used as is; the
/// remote lookup is not attempted.
pub proof fn lemma_fresh_cache_no_remote(cache: LastKnownLocation, now: u64)
    requires
        !cache_expired(cache, now),
    ensures
        spec_location_plan(None::<Seq<u8>>, true, cache, now) == LocationStep::UseCached(
            Location {
                latitude_microdeg: cache.latitude_microdeg,
                longitude_microdeg: cache.longitude_microdeg,
            },
        ),
{
}

/// Law: with the lookup disabled and no configured location, the answer
/// is "no location" - whatever the cache holds, no network attempt is
/// decided.
pub proof fn lemma_disabled_never_queries(cache: LastKnownLocation, now: u64)
    ensures
        spec_location_plan(None::<Seq<u8>>, false, cache, now) == LocationStep::NoLocation,
{
}

} // verus!
