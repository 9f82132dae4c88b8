//! The location cache file: three text lines - latitude and longitude in
//! microdegrees, then the resolution timestamp - each a decimal integer
//! followed by a newline.  The daemon both writes and reads this file, so
//! encoding and decoding are verified against one grammar and proved to
//! round-trip.

use vstd::prelude::*;

use crate::errors::BacklightError;
use crate::location::LastKnownLocation;
use crate::location::MICRO_ABS_MAX;
use crate::numtext::all_digits;
use crate::numtext::dec_digits;
use crate::numtext::digits_val;
use crate::numtext::is_ascii_digit;
use crate::numtext::lemma_dec_digits_all_digits;
use crate::numtext::lemma_dec_digits_val;
use crate::numtext::parse_digits_capped;
use crate::numtext::push_decimal_digits;

verus! {

/// The numeral of a signed integer: a minus sign for negative values,
/// then the decimal digits of the magnitude.
pub open spec fn dec_signed(n: int) -> Seq<u8> {
    if n < 0 {
        seq![45u8] + dec_digits(-n)
    } else {
        dec_digits(n)
    }
}

/// The rendered cache file.
pub open spec fn render_cache(c: LastKnownLocation) -> Seq<u8> {
    dec_signed(c.latitude_microdeg as int) + seq![10u8] + dec_signed(c.longitude_microdeg as int)
        + seq![10u8] + dec_digits(c.timestamp as int) + seq![10u8]
}

/// What a signed integer line reads as, within the model's magnitude.
pub open spec fn signed_int_of(s: Seq<u8>) -> Option<int> {
    if s.len() > 1 && s[0] == 45 {
        if all_digits(s.skip(1)) && digits_val(s.skip(1)) <= MICRO_ABS_MAX {
            Some(-digits_val(s.skip(1)))
        } else {
            None
        }
    } else if s.len() > 0 && all_digits(s) && digits_val(s) <= MICRO_ABS_MAX {
        Some(digits_val(s))
    } else {
        None
    }
}

/// What an unsigned integer line reads as, within the model's magnitude.
pub open spec fn unsigned_int_of(s: Seq<u8>) -> Option<int> {
    if s.len() > 0 && all_digits(s) && digits_val(s) <= MICRO_ABS_MAX {
        Some(digits_val(s))
    } else {
        None
    }
}

/// Whether `k` is the first newline of `s`.
pub open spec fn nl_split_at(s: Seq<u8>, k: int) -> bool {
    &&& 0 <= k < s.len()
    &&& s[k] == 10
    &&& forall|j: int| 0 <= j < k ==> s[j] != 10
}

/// What a whole cache file reads as: exactly three newline-terminated
/// lines - a signed latitude, a signed longitude, an unsigned timestamp.
pub open spec fn parse_cache(s: Seq<u8>) -> Option<LastKnownLocation> {
    if exists|k: int| nl_split_at(s, k) {
        let k1 = choose|k: int| nl_split_at(s, k);
        let rest1 = s.skip(k1 + 1);
        if exists|k: int| nl_split_at(rest1, k) {
            let k2 = choose|k: int| nl_split_at(rest1, k);
            let rest2 = rest1.skip(k2 + 1);
            if exists|k: int| nl_split_at(rest2, k) {
                let k3 = choose|k: int| nl_split_at(rest2, k);
                if rest2.skip(k3 + 1).len() == 0 {
                    match (
                        signed_int_of(s.take(k1)),
                        signed_int_of(rest1.take(k2)),
                        unsigned_int_of(rest2.take(k3)),
                    ) {
                        (Some(lat), Some(lon), Some(ts)) => Some(
                            LastKnownLocation {
                                latitude_microdeg: lat as i64,
                                longitude_microdeg: lon as i64,
                                timestamp: ts as u64,
                            },
                        ),
                        _ => None,
                    }
                } else {
                    None
                }
            } else {
                None
            }
        } else {
            None
        }
    } else {
        None
    }
}

/// Appends the numeral of a signed integer.
fn push_signed(n: i64, v: &mut Vec<u8>)
    requires
        -MICRO_ABS_MAX <= n,
    ensures
        final(v)@ == old(v)@ + dec_signed(n as int),
{
    if n < 0 {
        v.push(45);
        push_decimal_digits((-n) as u64, v);
        proof {
            assert(v@ =~= old(v)@ + dec_signed(n as int));
        }
    } else {
        push_decimal_digits(n as u64, v);
    }
}

/// Renders the cache record for persistence.
pub fn render_cache_file(c: &LastKnownLocation) -> (v: Vec<u8>)
    requires
        c.wf(),
    ensures
        v@ == render_cache(*c),
{
    let mut v: Vec<u8> = Vec::new();
    push_signed(c.latitude_microdeg, &mut v);
    v.push(10);
    push_signed(c.longitude_microdeg, &mut v);
    v.push(10);
    push_decimal_digits(c.timestamp, &mut v);
    v.push(10);
    proof {
        assert(v@ =~= render_cache(*c));
    }
    v
}

/// Reads `s[start..end]` as a signed integer line.
fn parse_signed_int(s: &[u8], start: usize, end: usize) -> (r: Option<i64>)
    requires
        start <= end <= s@.len(),
    ensures
        match signed_int_of(s@.subrange(start as int, end as int)) {
            Some(v) => r matches Some(x) && x == v,
            None => r is None,
        },
        r matches Some(x) ==> -MICRO_ABS_MAX <= x <= MICRO_ABS_MAX,
{
    let ghost sub = s@.subrange(start as int, end as int);
    if end - start > 1 && s[start] == 45 {
        proof {
            assert(sub[0] == 45);
            assert(sub.skip(1) =~= s@.subrange(start as int + 1, end as int));
        }
        match parse_digits_capped(s, start + 1, end, MICRO_ABS_MAX as u64) {
            Some(v) => Some(-(v as i64)),
            None => None,
        }
    } else {
        proof {
            if sub.len() > 1 {
                assert(sub[0] == s@[start as int]);
            }
            if sub.len() > 0 && sub[0] == 45 {
                // a lone minus sign: not a digit, so no unsigned reading
                assert(!is_ascii_digit(sub[0]));
            }
        }
        if start == end {
            return None;
        }
        match parse_digits_capped(s, start, end, MICRO_ABS_MAX as u64) {
            Some(v) => Some(v as i64),
            None => None,
        }
    }
}

/// Reads `s[start..end]` as an unsigned integer line.
fn parse_unsigned_int(s: &[u8], start: usize, end: usize) -> (r: Option<u64>)
    requires
        start <= end <= s@.len(),
    ensures
        match unsigned_int_of(s@.subrange(start as int, end as int)) {
            Some(v) => r matches Some(x) && x == v,
            None => r is None,
        },
        r matches Some(x) ==> x <= MICRO_ABS_MAX as u64,
{
    if start == end {
        return None;
    }
    match parse_digits_capped(s, start, end, MICRO_ABS_MAX as u64) {
        Some(v) => {
            proof {
                crate::numtext::lemma_digits_val_nonneg(
                    s@.subrange(start as int, end as int),
                );
            }
            Some(v)
        }
        None => None,
    }
}

/// Finds the first newline of `s[start..end]`.
#[verifier::loop_isolation(false)]
fn find_newline(s: &[u8], start: usize, end: usize) -> (r: Option<usize>)
    requires
        start <= end <= s@.len(),
    ensures
        r matches Some(k) ==> start <= k < end && s@[k as int] == 10 && (forall|j: int|
            start <= j < k ==> s@[j] != 10),
        r is None ==> forall|j: int| start <= j < end ==> s@[j] != 10,
{
    let mut i: usize = start;
    while i < end && s[i] != 10
        invariant
            start <= i <= end,
            forall|j: int| start <= j < i ==> s@[j] != 10,
        decreases end - i,
    {
        i = i + 1;
    }
    if i == end {
        None
    } else {
        Some(i)
    }
}

/// Parses a persisted cache file; anything malformed is a cache error,
/// which the caller recovers from by falling back to an empty cache.
pub fn parse_cache_file(bytes: &[u8]) -> (r: Result<LastKnownLocation, BacklightError>)
    ensures
        match parse_cache(bytes@) {
            Some(c) => r matches Ok(x) && x == c,
            None => r == Err::<LastKnownLocation, BacklightError>(BacklightError::Cache),
        },
        r matches Ok(x) ==> x.wf(),
{
    let n = bytes.len();
    let ghost s = bytes@;
    let k1 = match find_newline(bytes, 0, n) {
        Some(k) => k,
        None => {
            proof {
                assert forall|k: int| !nl_split_at(s, k) by {
                    if 0 <= k < s.len() {
                        assert(s[k] != 10);
                    }
                }
            }
            return Err(BacklightError::Cache);
        }
    };
    proof {
        assert(nl_split_at(s, k1 as int));
        assert forall|k: int| nl_split_at(s, k) implies k == k1 as int by {
            if k < k1 {
                assert(s[k] != 10);
            } else if k > k1 {
                assert(s[k1 as int] != 10);
            }
        }
    }
    let ghost rest1 = s.skip(k1 as int + 1);
    let k2 = match find_newline(bytes, k1 + 1, n) {
        Some(k) => k,
        None => {
            proof {
                assert forall|k: int| !nl_split_at(rest1, k) by {
                    if 0 <= k < rest1.len() {
                        assert(rest1[k] == s[k1 + 1 + k]);
                        assert(rest1[k] != 10);
                    }
                }
            }
            return Err(BacklightError::Cache);
        }
    };
    proof {
        assert(rest1[k2 - (k1 + 1)] == s[k2 as int]);
        assert forall|j: int| 0 <= j < k2 - (k1 + 1) implies rest1[j] != 10 by {
            assert(rest1[j] == s[k1 + 1 + j]);
        }
        assert(nl_split_at(rest1, k2 - (k1 + 1)));
        assert forall|k: int| nl_split_at(rest1, k) implies k == k2 - (k1 + 1) by {
            if k < k2 - (k1 + 1) {
                assert(rest1[k] != 10);
            } else if k > k2 - (k1 + 1) {
                assert(rest1[k2 - (k1 + 1)] != 10);
            }
        }
    }
    let ghost rest2 = rest1.skip(k2 - (k1 + 1) + 1);
    proof {
        assert(rest2 =~= s.skip(k2 as int + 1));
    }
    let k3 = match find_newline(bytes, k2 + 1, n) {
        Some(k) => k,
        None => {
            proof {
                assert forall|k: int| !nl_split_at(rest2, k) by {
                    if 0 <= k < rest2.len() {
                        assert(rest2[k] == s[k2 + 1 + k]);
                        assert(rest2[k] != 10);
                    }
                }
            }
            return Err(BacklightError::Cache);
        }
    };
    proof {
        assert(rest2[k3 - (k2 + 1)] == s[k3 as int]);
        assert forall|j: int| 0 <= j < k3 - (k2 + 1) implies rest2[j] != 10 by {
            assert(rest2[j] == s[k2 + 1 + j]);
        }
        assert(nl_split_at(rest2, k3 - (k2 + 1)));
        assert forall|k: int| nl_split_at(rest2, k) implies k == k3 - (k2 + 1) by {
            if k < k3 - (k2 + 1) {
                assert(rest2[k] != 10);
            } else if k > k3 - (k2 + 1) {
                assert(rest2[k3 - (k2 + 1)] != 10);
            }
        }
    }
    if k3 + 1 != n {
        proof {
            assert(rest2.skip(k3 - (k2 + 1) + 1).len() == n - (k3 + 1));
        }
        return Err(BacklightError::Cache);
    }
    proof {
        assert(rest2.skip(k3 - (k2 + 1) + 1).len() == 0);
        assert(s.take(k1 as int) =~= s.subrange(0, k1 as int));
        assert(rest1.take(k2 - (k1 + 1)) =~= s.subrange(k1 as int + 1, k2 as int));
        assert(rest2.take(k3 - (k2 + 1)) =~= s.subrange(k2 as int + 1, k3 as int));
    }
    let lat = parse_signed_int(bytes, 0, k1);
    let lon = parse_signed_int(bytes, k1 + 1, k2);
    let ts = parse_unsigned_int(bytes, k2 + 1, k3);
    match (lat, lon, ts) {
        (Some(a), Some(b), Some(t)) => Ok(
            LastKnownLocation { latitude_microdeg: a, longitude_microdeg: b, timestamp: t },
        ),
        _ => Err(BacklightError::Cache),
    }
}

/// A signed numeral never contains a newline.
proof fn lemma_dec_signed_no_newline(n: int)
    requires
        -MICRO_ABS_MAX <= n,
    ensures
        forall|j: int| 0 <= j < dec_signed(n).len() ==> dec_signed(n)[j] != 10,
        dec_signed(n).len() >= 1,
{
    if n < 0 {
        lemma_dec_digits_all_digits(-n);
        assert forall|j: int| 0 <= j < dec_signed(n).len() implies dec_signed(n)[j] != 10 by {
            if j == 0 {
                assert(dec_signed(n)[0] == 45);
            } else {
                assert(dec_signed(n)[j] == dec_digits(-n)[j - 1]);
                assert(is_ascii_digit(dec_digits(-n)[j - 1]));
            }
        }
    } else {
        lemma_dec_digits_all_digits(n);
        assert forall|j: int| 0 <= j < dec_signed(n).len() implies dec_signed(n)[j] != 10 by {
            assert(is_ascii_digit(dec_digits(n)[j]));
        }
    }
}

/// A rendered signed numeral reads back as its value.
proof fn lemma_signed_numeral_reads_back(n: int)
    requires
        -MICRO_ABS_MAX <= n <= MICRO_ABS_MAX,
    ensures
        signed_int_of(dec_signed(n)) == Some(n),
{
    if n < 0 {
        lemma_dec_digits_all_digits(-n);
        lemma_dec_digits_val(-n);
        assert(dec_signed(n)[0] == 45);
        assert(dec_signed(n).skip(1) =~= dec_digits(-n));
        assert(dec_signed(n).len() > 1);
    } else {
        lemma_dec_digits_all_digits(n);
        lemma_dec_digits_val(n);
        assert(dec_signed(n) =~= dec_digits(n));
        if dec_signed(n).len() > 1 {
            assert(is_ascii_digit(dec_signed(n)[0]));
            assert(dec_signed(n)[0] != 45);
        }
    }
}

/// Law: a persisted cache record reads back exactly, for every record
/// within the model's bounds.
pub proof fn lemma_cache_round_trip(c: LastKnownLocation)
    requires
        c.wf(),
    ensures
        parse_cache(render_cache(c)) == Some(c),
{
    let a = dec_signed(c.latitude_microdeg as int);
    let b = dec_signed(c.longitude_microdeg as int);
    let t = dec_digits(c.timestamp as int);
    let s = render_cache(c);
    lemma_dec_signed_no_newline(c.latitude_microdeg as int);
    lemma_dec_signed_no_newline(c.longitude_microdeg as int);
    lemma_dec_digits_all_digits(c.timestamp as int);
    lemma_signed_numeral_reads_back(c.latitude_microdeg as int);
    lemma_signed_numeral_reads_back(c.longitude_microdeg as int);
    lemma_dec_digits_val(c.timestamp as int);

    let k1 = a.len() as int;
    assert(s[k1] == 10);
    assert forall|j: int| 0 <= j < k1 implies s[j] != 10 by {
        assert(s[j] == a[j]);
    }
    assert(nl_split_at(s, k1));
    assert forall|k: int| nl_split_at(s, k) implies k == k1 by {
        if k < k1 {
            assert(s[k] != 10);
        } else if k > k1 {
            assert(s[k1] != 10);
        }
    }
    assert(s.take(k1) =~= a);

    let rest1 = s.skip(k1 + 1);
    assert(rest1 =~= b + seq![10u8] + t + seq![10u8]);
    let k2 = b.len() as int;
    assert(rest1[k2] == 10);
    assert forall|j: int| 0 <= j < k2 implies rest1[j] != 10 by {
        assert(rest1[j] == b[j]);
    }
    assert(nl_split_at(rest1, k2));
    assert forall|k: int| nl_split_at(rest1, k) implies k == k2 by {
        if k < k2 {
            assert(rest1[k] != 10);
        } else if k > k2 {
            assert(rest1[k2] != 10);
        }
    }
    assert(rest1.take(k2) =~= b);

    let rest2 = rest1.skip(k2 + 1);
    assert(rest2 =~= t + seq![10u8]);
    let k3 = t.len() as int;
    assert(rest2[k3] == 10);
    assert forall|j: int| 0 <= j < k3 implies rest2[j] != 10 by {
        assert(rest2[j] == t[j]);
        assert(is_ascii_digit(t[j]));
    }
    assert(nl_split_at(rest2, k3));
    assert forall|k: int| nl_split_at(rest2, k) implies k == k3 by {
        if k < k3 {
            assert(rest2[k] != 10);
        } else if k > k3 {
            assert(rest2[k3] != 10);
        }
    }
    assert(rest2.take(k3) =~= t);
    assert(rest2.skip(k3 + 1).len() == 0);

    assert(unsigned_int_of(t) == Some(c.timestamp as int));
}

} // verus!
