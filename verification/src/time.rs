//! Timeline positions as order keys.
//!
//! The editor measures time in seconds as binary floating-point numbers.
//! The verified model never does arithmetic on them: it only compares and
//! stores them. A [`TimeKey`] stands for one such time: keys compare as
//! integers exactly as the times they stand for compare, and the key of a
//! time can be turned back into that time.

use vstd::prelude::*;

verus! {

/// A point in time (or a span of time) on the timeline, as an order key.
#[derive(Clone, Copy, PartialEq, Eq, Hash, Debug, Structural)]
pub struct TimeKey(pub u64);

/// Key of time zero.
pub const ZERO_KEY: u64 = 0x8000_0000_0000_0000;

impl TimeKey {
    /// Time zero.
    pub fn zero() -> (r: TimeKey)
        ensures
            r.0 == ZERO_KEY,
    {
        TimeKey(ZERO_KEY)
    }

    /// The later of two times.
    pub fn max(self, other: TimeKey) -> (r: TimeKey)
        ensures
            r.0 == if self.0 >= other.0 { self.0 } else { other.0 },
    {
        if self.0 >= other.0 {
            self
        } else {
            other
        }
    }

    /// The earlier of two times.
    pub fn min(self, other: TimeKey) -> (r: TimeKey)
        ensures
            r.0 == if self.0 <= other.0 { self.0 } else { other.0 },
    {
        if self.0 <= other.0 {
            self
        } else {
            other
        }
    }
}

/// The sign bit of a 64-bit floating-point number.
pub const SIGN_BIT: u64 = 0x8000_0000_0000_0000;

/// Whether `b` is the bit pattern of a NaN (which has no place in the
/// order of times).
pub open spec fn is_nan_bits(b: u64) -> bool {
    b & 0x7FF0_0000_0000_0000u64 == 0x7FF0_0000_0000_0000u64 && b & 0x000F_FFFF_FFFF_FFFFu64 != 0
}

/// The key of the time whose floating-point bit pattern is `b`. Negative
/// zero gets the key of zero.
pub open spec fn key_of_bits(b: u64) -> u64 {
    if b == SIGN_BIT {
        ZERO_KEY
    } else if b & SIGN_BIT != 0 {
        !b
    } else {
        b | SIGN_BIT
    }
}

/// The floating-point bit pattern of the time with key `k`.
pub open spec fn bits_of_key(k: u64) -> u64 {
    if k & SIGN_BIT != 0 {
        k & !SIGN_BIT
    } else {
        !k
    }
}

/// `a < b` for the floating-point numbers with bit patterns `a` and `b`
/// (neither a NaN), stated over the sign and magnitude bits: zeros of
/// either sign are equal, negatives come before positives, and among
/// numbers of one sign the magnitudes decide.
pub open spec fn float_lt_bits(a: u64, b: u64) -> bool {
    let ma = a & !SIGN_BIT;
    let mb = b & !SIGN_BIT;
    let na = a & SIGN_BIT != 0;
    let nb = b & SIGN_BIT != 0;
    if ma == 0 && mb == 0 {
        false
    } else if !na && !nb {
        ma < mb
    } else if na && nb {
        ma > mb
    } else {
        na
    }
}

/// `a == b` for the floating-point numbers with bit patterns `a` and `b`
/// (neither a NaN): the same pattern, or two zeros.
pub open spec fn float_eq_bits(a: u64, b: u64) -> bool {
    a == b || (a & !SIGN_BIT == 0 && b & !SIGN_BIT == 0)
}

impl TimeKey {
    /// The key of the time whose floating-point bit pattern is `bits`.
    pub fn from_f64_bits(bits: u64) -> (r: TimeKey)
        ensures
            r.0 == key_of_bits(bits),
    {
        if bits == SIGN_BIT {
            TimeKey(ZERO_KEY)
        } else if bits & SIGN_BIT != 0 {
            TimeKey(!bits)
        } else {
            TimeKey(bits | SIGN_BIT)
        }
    }

    /// The floating-point bit pattern of the time this key stands for.
    pub fn to_f64_bits(self) -> (r: u64)
        ensures
            r == bits_of_key(self.0),
    {
        if self.0 & SIGN_BIT != 0 {
            self.0 & !SIGN_BIT
        } else {
            !self.0
        }
    }
}

proof fn lemma_key_order_bv(a: u64, b: u64)
    by (bit_vector)
    ensures
        ((if a == 0x8000_0000_0000_0000u64 {
            0x8000_0000_0000_0000u64
        } else if a & 0x8000_0000_0000_0000u64 != 0 {
            !a
        } else {
            a | 0x8000_0000_0000_0000u64
        }) < (if b == 0x8000_0000_0000_0000u64 {
            0x8000_0000_0000_0000u64
        } else if b & 0x8000_0000_0000_0000u64 != 0 {
            !b
        } else {
            b | 0x8000_0000_0000_0000u64
        })) == (if a & !0x8000_0000_0000_0000u64 == 0 && b & !0x8000_0000_0000_0000u64 == 0 {
            false
        } else if a & 0x8000_0000_0000_0000u64 == 0 && b & 0x8000_0000_0000_0000u64 == 0 {
            a & !0x8000_0000_0000_0000u64 < b & !0x8000_0000_0000_0000u64
        } else if a & 0x8000_0000_0000_0000u64 != 0 && b & 0x8000_0000_0000_0000u64 != 0 {
            a & !0x8000_0000_0000_0000u64 > b & !0x8000_0000_0000_0000u64
        } else {
            a & 0x8000_0000_0000_0000u64 != 0
        }),
{
}

proof fn lemma_key_eq_bv(a: u64, b: u64)
    by (bit_vector)
    ensures
        ((if a == 0x8000_0000_0000_0000u64 {
            0x8000_0000_0000_0000u64
        } else if a & 0x8000_0000_0000_0000u64 != 0 {
            !a
        } else {
            a | 0x8000_0000_0000_0000u64
        }) == (if b == 0x8000_0000_0000_0000u64 {
            0x8000_0000_0000_0000u64
        } else if b & 0x8000_0000_0000_0000u64 != 0 {
            !b
        } else {
            b | 0x8000_0000_0000_0000u64
        })) == (a == b || (a & !0x8000_0000_0000_0000u64 == 0 && b & !0x8000_0000_0000_0000u64
            == 0)),
{
}

proof fn lemma_key_back_bv(a: u64)
    by (bit_vector)
    ensures
        a != 0x8000_0000_0000_0000u64 ==> (if (if a & 0x8000_0000_0000_0000u64 != 0 {
            !a
        } else {
            a | 0x8000_0000_0000_0000u64
        }) & 0x8000_0000_0000_0000u64 != 0 {
            (if a & 0x8000_0000_0000_0000u64 != 0 {
                !a
            } else {
                a | 0x8000_0000_0000_0000u64
            }) & !0x8000_0000_0000_0000u64
        } else {
            !(if a & 0x8000_0000_0000_0000u64 != 0 {
                !a
            } else {
                a | 0x8000_0000_0000_0000u64
            })
        }) == a,
{
}

/// Keys order times as the floating-point numbers they come from: for
/// any two numbers that are not NaN, the keys compare less exactly when
/// the numbers do, and are equal exactly when the numbers are.
pub proof fn lemma_keys_follow_float_order(a: u64, b: u64)
    requires
        !is_nan_bits(a),
        !is_nan_bits(b),
    ensures
        (key_of_bits(a) < key_of_bits(b)) == float_lt_bits(a, b),
        (key_of_bits(a) == key_of_bits(b)) == float_eq_bits(a, b),
{
    lemma_key_order_bv(a, b);
    lemma_key_eq_bv(a, b);
}

/// Turning a key back into a bit pattern gives the pattern it came from
/// (negative zero comes back as zero).
pub proof fn lemma_key_bits_round_trip(b: u64)
    ensures
        b != SIGN_BIT ==> bits_of_key(key_of_bits(b)) == b,
        bits_of_key(key_of_bits(SIGN_BIT)) == 0,
{
    lemma_key_back_bv(b);
    assert(bits_of_key(ZERO_KEY) == 0) by (bit_vector);
}

impl Default for TimeKey {
    fn default() -> (r: TimeKey)
        ensures
            r.0 == ZERO_KEY,
    {
        TimeKey(ZERO_KEY)
    }
}

/// A half-open interval `[start, end)` on the timeline.
#[derive(Clone, Copy, PartialEq, Eq, Debug, Structural)]
pub struct TimeRange {
    pub start: TimeKey,
    pub end: TimeKey,
}

/// Whether `t` lies in `[start, end)`.
pub open spec fn in_range(start: TimeKey, end: TimeKey, t: TimeKey) -> bool {
    start.0 <= t.0 && t.0 < end.0
}

impl TimeRange {
    /// The range from `start` to `end`; `end` must not come before `start`.
    pub fn new(start: TimeKey, end: TimeKey) -> (r: TimeRange)
        requires
            start.0 <= end.0,
        ensures
            r.start == start,
            r.end == end,
    {
        TimeRange { start, end }
    }

    /// Whether `t` lies in the range (start included, end excluded).
    pub fn contains(self, t: TimeKey) -> (r: bool)
        ensures
            r == in_range(self.start, self.end, t),
    {
        t.0 >= self.start.0 && t.0 < self.end.0
    }

    /// Whether the two ranges share a point.
    pub fn intersects(self, other: TimeRange) -> (r: bool)
        ensures
            r == (self.start.0 < other.end.0 && other.start.0 < self.end.0),
    {
        self.start.0 < other.end.0 && other.start.0 < self.end.0
    }
}

impl Default for TimeRange {
    fn default() -> (r: TimeRange)
        ensures
            r.start.0 == ZERO_KEY,
            r.end.0 == ZERO_KEY,
    {
        TimeRange::new(TimeKey::zero(), TimeKey::zero())
    }
}

/// Two ranges intersect exactly when some point lies in both (a point lies
/// in both only when both are non-empty).
pub proof fn lemma_intersects_iff_common_point(a: TimeRange, b: TimeRange)
    ensures
        (a.start.0 < b.end.0 && b.start.0 < a.end.0 && a.start.0 < a.end.0 && b.start.0
            < b.end.0) <==> (exists|t: TimeKey|
            in_range(a.start, a.end, t) && in_range(b.start, b.end, t)),
{
    if a.start.0 < b.end.0 && b.start.0 < a.end.0 && a.start.0 < a.end.0 && b.start.0 < b.end.0 {
        let m = if a.start.0 >= b.start.0 { a.start } else { b.start };
        assert(in_range(a.start, a.end, m) && in_range(b.start, b.end, m));
    }
}

} // verus!
