//! Identifiers for project entities and their 26-character base32 form.
//!
//! An [`Id`] is a 128-bit value rendered as 26 lowercase characters of the
//! Crockford base32 alphabet, most significant digit first.

use vstd::prelude::*;

verus! {

/// Lowercase Crockford base32 alphabet used to render ids.
pub const ALPHABET: [u8; 32] = [
    48, 49, 50, 51, 52, 53, 54, 55, 56, 57,
    97, 98, 99, 100, 101, 102, 103, 104, 106, 107,
    109, 110, 112, 113, 114, 115, 116, 118, 119, 120,
    121, 122,
];

/// Number of characters in the text form of an id.
pub const ID_TEXT_LEN: usize = 26;

/// An opaque identifier for any project entity (asset, track, clip, ...).
#[derive(Clone, Copy, PartialEq, Eq, Hash, Debug, Structural)]
pub struct Id(pub u128);

/// Fixed-size text form of an [`Id`].
#[derive(Clone, Copy, PartialEq, Eq, Hash, Debug)]
pub struct IdStr([u8; 26]);

/// Why a piece of text is not the text form of an id.
#[derive(Clone, Copy, PartialEq, Eq, Debug, Structural)]
pub enum IdParseError {
    /// The text does not have exactly 26 bytes; carries the length found.
    WrongLength(usize),
    /// The text holds a byte outside the alphabet; carries the first such byte.
    InvalidChar(u8),
}

/// The value of the digit at position `i` (0 = leftmost) of the text of `v`.
pub open spec fn digit_of(v: u128, i: int) -> u128 {
    (v >> ((5 * (25 - i)) as u128)) & 31u128
}

/// The text form of `v`: each digit rendered through the alphabet.
pub open spec fn id_text(v: u128) -> Seq<u8> {
    Seq::new(26, |i: int| ALPHABET@[digit_of(v, i) as int])
}

/// The digit a text byte stands for: its position in the alphabet, if it
/// occurs there.
pub open spec fn digit_value(b: u8) -> Option<u128> {
    if exists|d: int| 0 <= d < 32 && #[trigger] ALPHABET@[d] == b {
        Some((choose|d: int| 0 <= d < 32 && #[trigger] ALPHABET@[d] == b) as u128)
    } else {
        None
    }
}

/// Value accumulated from the digits of `s`, five bits per digit, keeping
/// the low 128 bits.
pub open spec fn text_value(s: Seq<u8>) -> u128
    decreases s.len(),
{
    if s.len() == 0 {
        0
    } else {
        (text_value(s.drop_last()) << 5u128) | digit_value(s.last()).unwrap()
    }
}

/// True when every byte of `s` is read as a digit.
pub open spec fn all_digits(s: Seq<u8>) -> bool {
    forall|i: int| 0 <= i < s.len() ==> (#[trigger] digit_value(s[i])) is Some
}

/// Index of the first byte of `s` that is not read as a digit.
pub open spec fn first_non_digit(s: Seq<u8>) -> int
    recommends
        !all_digits(s),
{
    choose|i: int|
        0 <= i < s.len() && digit_value(s[i]) is None && forall|j: int|
            0 <= j < i ==> (#[trigger] digit_value(s[j])) is Some
}

/// What reading `s` as the text of an id gives.
pub open spec fn parse_spec(s: Seq<u8>) -> Result<u128, IdParseError> {
    if s.len() != 26 {
        Err(IdParseError::WrongLength(s.len() as usize))
    } else if !all_digits(s) {
        Err(IdParseError::InvalidChar(s[first_non_digit(s)]))
    } else {
        Ok(text_value(s))
    }
}

proof fn lemma_step(v: u128, s: u128)
    by (bit_vector)
    requires
        5 <= s <= 125,
    ensures
        ((v >> s) << 5u128) | ((v >> ((s - 5u128) as u128)) & 31u128) == v >> ((s
            - 5u128) as u128),
{
}

proof fn lemma_first(v: u128)
    by (bit_vector)
    ensures
        (v >> 125u128) & 31u128 == v >> 125u128,
        (0u128 << 5u128) | (v >> 125u128) == v >> 125u128,
        v >> 0u128 == v,
{
}

proof fn lemma_shift_more(v: u128, s: u128)
    by (bit_vector)
    requires
        s <= 120,
    ensures
        (v >> s) >> 5u128 == v >> ((s + 5u128) as u128),
{
}

proof fn lemma_zero_above(v: u128, s: u128, t: u128)
    by (bit_vector)
    requires
        s <= t <= 125,
        v >> s == 0,
    ensures
        (v >> t) & 31u128 == 0,
{
}

proof fn lemma_low_bits(v: u128)
    by (bit_vector)
    ensures
        v & 31u128 < 32,
{
}

/// The characters of the alphabet, one by one.
proof fn lemma_alphabet_values()
    ensures
        ALPHABET@.len() == 32,
        ALPHABET@[0] == 48u8,
        ALPHABET@[1] == 49u8,
        ALPHABET@[2] == 50u8,
        ALPHABET@[3] == 51u8,
        ALPHABET@[4] == 52u8,
        ALPHABET@[5] == 53u8,
        ALPHABET@[6] == 54u8,
        ALPHABET@[7] == 55u8,
        ALPHABET@[8] == 56u8,
        ALPHABET@[9] == 57u8,
        ALPHABET@[10] == 97u8,
        ALPHABET@[11] == 98u8,
        ALPHABET@[12] == 99u8,
        ALPHABET@[13] == 100u8,
        ALPHABET@[14] == 101u8,
        ALPHABET@[15] == 102u8,
        ALPHABET@[16] == 103u8,
        ALPHABET@[17] == 104u8,
        ALPHABET@[18] == 106u8,
        ALPHABET@[19] == 107u8,
        ALPHABET@[20] == 109u8,
        ALPHABET@[21] == 110u8,
        ALPHABET@[22] == 112u8,
        ALPHABET@[23] == 113u8,
        ALPHABET@[24] == 114u8,
        ALPHABET@[25] == 115u8,
        ALPHABET@[26] == 116u8,
        ALPHABET@[27] == 118u8,
        ALPHABET@[28] == 119u8,
        ALPHABET@[29] == 120u8,
        ALPHABET@[30] == 121u8,
        ALPHABET@[31] == 122u8,
{
}

/// The alphabet is in strictly increasing byte order.
proof fn lemma_alphabet_increasing(i: int, j: int)
    requires
        0 <= i < j < 32,
    ensures
        ALPHABET@[i] < ALPHABET@[j],
{
    lemma_alphabet_values();
    assert(i == 0 || i == 1 || i == 2 || i == 3 || i == 4 || i == 5 || i == 6 || i == 7 || i == 8 || i == 9 || i == 10 || i == 11 || i == 12 || i == 13 || i == 14 || i == 15 || i == 16 || i == 17 || i == 18 || i == 19 || i == 20 || i == 21 || i == 22 || i == 23 || i == 24 || i == 25 || i == 26 || i == 27 || i == 28 || i == 29 || i == 30);
    assert(j == 1 || j == 2 || j == 3 || j == 4 || j == 5 || j == 6 || j == 7 || j == 8 || j == 9 || j == 10 || j == 11 || j == 12 || j == 13 || j == 14 || j == 15 || j == 16 || j == 17 || j == 18 || j == 19 || j == 20 || j == 21 || j == 22 || j == 23 || j == 24 || j == 25 || j == 26 || j == 27 || j == 28 || j == 29 || j == 30 || j == 31);
}

/// A byte found at position `d` of the alphabet is read as the digit `d`.
proof fn lemma_alphabet_position(d: int, b: u8)
    requires
        0 <= d < 32,
        ALPHABET@[d] == b,
    ensures
        digit_value(b) == Some(d as u128),
{
    let c = choose|c: int| 0 <= c < 32 && #[trigger] ALPHABET@[c] == b;
    assert(0 <= c < 32 && ALPHABET@[c] == b);
    if c < d {
        lemma_alphabet_increasing(c, d);
    }
    if d < c {
        lemma_alphabet_increasing(d, c);
    }
}

/// Every character of the alphabet is read back as its own position.
proof fn lemma_alphabet_digits(d: u128)
    requires
        d < 32,
    ensures
        digit_value(ALPHABET@[d as int]) == Some(d),
{
    lemma_alphabet_position(d as int, ALPHABET@[d as int]);
}

/// The leading `i` digits of the text of `v`, read as a number.
pub open spec fn prefix_value(v: u128, i: int) -> u128 {
    if i <= 0 {
        0
    } else {
        v >> ((5 * (26 - i)) as u128)
    }
}

proof fn lemma_text_digits(v: u128)
    ensures
        all_digits(id_text(v)),
        id_text(v).len() == 26,
{
    assert forall|i: int| 0 <= i < id_text(v).len() implies (#[trigger] digit_value(
        id_text(v)[i],
    )) is Some by {
        lemma_low_bits(v >> ((5 * (25 - i)) as u128));
        lemma_alphabet_digits(digit_of(v, i));
    }
}

proof fn lemma_prefix(v: u128, i: int)
    requires
        0 <= i <= 26,
    ensures
        text_value(id_text(v).take(i)) == prefix_value(v, i),
    decreases i,
{
    let t = id_text(v);
    if i == 0 {
        assert(t.take(0) =~= Seq::<u8>::empty());
    } else {
        lemma_prefix(v, i - 1);
        assert(t.take(i).drop_last() =~= t.take(i - 1));
        lemma_low_bits(v >> ((5 * (25 - (i - 1))) as u128));
        lemma_alphabet_digits(digit_of(v, i - 1));
        assert(digit_value(t.take(i).last()) == Some(digit_of(v, i - 1)));
        if i == 1 {
            lemma_first(v);
        } else {
            lemma_step(v, (5 * (26 - (i - 1))) as u128);
        }
    }
}

/// Reading back the text of an id gives the id again, for every id.
pub proof fn lemma_parse_text(v: u128)
    ensures
        parse_spec(id_text(v)) == Ok::<u128, IdParseError>(v),
{
    lemma_text_digits(v);
    lemma_prefix(v, 26);
    assert(id_text(v).take(26) =~= id_text(v));
    lemma_first(v);
}

/// Two ids with the same text are the same id: the text form loses nothing.
pub proof fn lemma_id_text_injective(a: u128, b: u128)
    requires
        id_text(a) == id_text(b),
    ensures
        a == b,
{
    lemma_parse_text(a);
    lemma_parse_text(b);
}

/// `s` comes before `t` in dictionary order of their bytes: they agree up
/// to some position, where `s` has the smaller byte.
pub open spec fn text_before(s: Seq<u8>, t: Seq<u8>) -> bool {
    exists|i: int|
        0 <= i < s.len() && i < t.len() && #[trigger] s.take(i) == t.take(i) && s[i] < t[i]
}

proof fn lemma_shift_order(a: u128, b: u128, s: u128)
    by (bit_vector)
    requires
        a < b,
        s < 128,
    ensures
        a >> s <= b >> s,
{
}

/// Values whose leading `i` digits agree also agree on fewer leading digits.
proof fn lemma_leading_agree(a: u128, b: u128, m: int, i: int)
    requires
        1 <= m <= i <= 26,
        prefix_value(a, i) == prefix_value(b, i),
    ensures
        prefix_value(a, m) == prefix_value(b, m),
    decreases i - m,
{
    if m < i {
        lemma_leading_agree(a, b, m + 1, i);
        lemma_shift_more(a, (5 * (26 - (m + 1))) as u128);
        lemma_shift_more(b, (5 * (26 - (m + 1))) as u128);
    }
}

proof fn lemma_shifted_small(v: u128, s: u128)
    by (bit_vector)
    requires
        5 <= s < 128,
    ensures
        v >> s < 0x0800_0000_0000_0000_0000_0000_0000_0000u128,
{
}

proof fn lemma_append_digit_order(p: u128, x: u128, y: u128)
    by (bit_vector)
    requires
        p < 0x0800_0000_0000_0000_0000_0000_0000_0000u128,
        x < y,
        y < 32,
    ensures
        (p << 5u128) | x < (p << 5u128) | y,
{
}

/// The first `k` (from `k` upward) at which the leading digits of two
/// different values differ, the leading digits before it being equal.
proof fn lemma_first_difference(a: u128, b: u128, k: int) -> (r: int)
    requires
        a != b,
        1 <= k <= 26,
        k == 1 || prefix_value(a, k - 1) == prefix_value(b, k - 1),
    ensures
        k <= r <= 26,
        prefix_value(a, r) != prefix_value(b, r),
        r == 1 || prefix_value(a, r - 1) == prefix_value(b, r - 1),
    decreases 26 - k,
{
    if prefix_value(a, k) != prefix_value(b, k) {
        k
    } else {
        if k == 26 {
            lemma_first(a);
            lemma_first(b);
        }
        lemma_first_difference(a, b, k + 1)
    }
}

/// The text of a smaller id comes first in dictionary order: the text form
/// orders ids as their values are ordered.
pub proof fn lemma_id_text_order(a: u128, b: u128)
    requires
        a < b,
    ensures
        text_before(id_text(a), id_text(b)),
{
    let k = lemma_first_difference(a, b, 1);
    let i = k - 1;
    let s = (5 * (26 - k)) as u128;
    lemma_shift_order(a, b, s);
    lemma_low_bits(a >> s);
    lemma_low_bits(b >> s);
    if i == 0 {
        lemma_first(a);
        lemma_first(b);
        assert(digit_of(a, 0) < digit_of(b, 0));
    } else {
        let t = (5 * (26 - i)) as u128;
        lemma_step(a, t);
        lemma_step(b, t);
        lemma_shifted_small(a, t);
        let p = prefix_value(a, i);
        if digit_of(b, i) < digit_of(a, i) {
            lemma_append_digit_order(p, digit_of(b, i), digit_of(a, i));
        }
        assert(digit_of(a, i) < digit_of(b, i));
        assert forall|j: int| 0 <= j < i implies #[trigger] digit_of(a, j) == digit_of(b, j) by {
            lemma_leading_agree(a, b, j + 1, i);
        }
    }
    lemma_alphabet_increasing(digit_of(a, i) as int, digit_of(b, i) as int);
    let ta = id_text(a);
    let tb = id_text(b);
    assert(ta.take(i) =~= tb.take(i)) by {
        assert forall|j: int| 0 <= j < i implies ta.take(i)[j] == tb.take(i)[j] by {
            assert(digit_of(a, j) == digit_of(b, j));
        }
    }
    assert(ta[i] < tb[i]);
}

proof fn lemma_alphabet_ascii()
    ensures
        forall|d: int| 0 <= d < 32 ==> #[trigger] ALPHABET@[d] < 128,
{
    lemma_alphabet_values();
    assert forall|d: int| 0 <= d < 32 implies #[trigger] ALPHABET@[d] < 128 by {
        if d < 31 {
            lemma_alphabet_increasing(d, 31);
        }
    }
}

proof fn lemma_text_ascii(v: u128)
    ensures
        forall|j: int| 0 <= j < 26 ==> #[trigger] id_text(v)[j] < 128,
{
    lemma_alphabet_ascii();
    assert forall|j: int| 0 <= j < 26 implies #[trigger] id_text(v)[j] < 128 by {
        lemma_low_bits(v >> ((5 * (25 - j)) as u128));
    }
}

impl View for IdStr {
    type V = Seq<u8>;

    closed spec fn view(&self) -> Seq<u8> {
        self.0@
    }
}

impl IdStr {
    #[verifier::type_invariant]
    closed spec fn is_ascii_text(self) -> bool {
        forall|j: int| 0 <= j < 26 ==> #[trigger] self.0@[j] < 128
    }

    /// Render `value` as 26 base32 digits, most significant first.
    pub fn encode(value: u128) -> (r: IdStr)
        ensures
            r@ == id_text(value),
    {
        let mut out: [u8; 26] = [48u8; 26];
        let mut v: u128 = value;
        let mut i: usize = 26;
        proof {
            lemma_first(value);
        }
        while i > 0
            invariant
                i <= 26,
                i > 0 ==> v == value >> ((5 * (26 - i)) as u128),
                forall|j: int| i <= j < 26 ==> out@[j] == ALPHABET@[digit_of(value, j) as int],
                forall|j: int| 0 <= j < i ==> out@[j] == 48u8,
            ensures
                forall|j: int|
                    0 <= j < 26 ==> out@[j] == ALPHABET@[#[trigger] digit_of(value, j) as int],
            decreases i,
        {
            let idx = i - 1;
            proof {
                lemma_low_bits(v);
            }
            out[idx] = ALPHABET[(v & 0x1f) as usize];
            proof {
                if idx > 0 {
                    lemma_shift_more(value, (5 * (25 - idx)) as u128);
                }
            }
            v = v >> 5u32;
            i = idx;
            if v == 0 {
                proof {
                    assert forall|j: int| 0 <= j < i implies out@[j] == ALPHABET@[digit_of(
                        value,
                        j,
                    ) as int] by {
                        lemma_zero_above(
                            value,
                            (5 * (26 - idx)) as u128,
                            (5 * (25 - j)) as u128,
                        );
                    }
                }
                break;
            }
        }
        assert(out@ =~= id_text(value));
        proof {
            lemma_text_ascii(value);
        }
        IdStr(out)
    }

    /// The id text as a string slice.
    pub fn as_str(&self) -> (r: &str)
        ensures
            r@ == self@.map_values(|b: u8| b as char),
    {
        proof {
            use_type_invariant(self);
        }
        ascii_str(&self.0)
    }
}

impl Id {
    /// Render the id as its 26-character text form.
    pub fn as_str(&self) -> (r: IdStr)
        ensures
            r@ == id_text(self.0),
    {
        IdStr::encode(self.0)
    }

    /// Read an id back from its text form.
    pub fn parse(s: &[u8]) -> (r: Result<Id, IdParseError>)
        ensures
            match r {
                Ok(id) => parse_spec(s@) == Ok::<u128, IdParseError>(id.0),
                Err(e) => parse_spec(s@) == Err::<u128, IdParseError>(e),
            },
    {
        if s.len() != 26 {
            return Err(IdParseError::WrongLength(s.len()));
        }
        let mut value: u128 = 0;
        let mut i: usize = 0;
        while i < 26
            invariant
                s@.len() == 26,
                i <= 26,
                all_digits(s@.take(i as int)),
                value == text_value(s@.take(i as int)),
            decreases 26 - i,
        {
            let b = s[i];
            let digit: u128 = match alphabet_position(b) {
                Some(d) => d,
                None => {
                    proof {
                        let k = first_non_digit(s@);
                        assert forall|j: int| 0 <= j < i implies (#[trigger] digit_value(s@[j])) is Some by {
                            assert(s@.take(i as int)[j] == s@[j]);
                        }
                        assert(!all_digits(s@));
                        assert(0 <= k < 26 && digit_value(s@[k]) is None);
                        if k < i {
                            assert(digit_value(s@[k]) is Some);
                        }
                        if k > i {
                            assert(digit_value(s@[i as int]) is Some);
                        }
                    }
                    return Err(IdParseError::InvalidChar(b));
                },
            };
            assert(s@.take(i + 1).drop_last() =~= s@.take(i as int));
            assert forall|j: int| 0 <= j < i + 1 implies (#[trigger] digit_value(s@.take(i + 1)[j])) is Some by {
                if j < i {
                    assert(s@.take(i + 1)[j] == s@.take(i as int)[j]);
                }
            }
            value = (value << 5u32) | digit;
            i = i + 1;
        }
        assert(s@.take(26) =~= s@);
        Ok(Id(value))
    }
}

/// The position of `b` in the alphabet, if it occurs there.
fn alphabet_position(b: u8) -> (r: Option<u128>)
    ensures
        r == digit_value(b),
{
    let mut k: usize = 0;
    while k < 32
        invariant
            k <= 32,
            forall|j: int| 0 <= j < k ==> ALPHABET@[j] != b,
        decreases 32 - k,
    {
        if ALPHABET[k] == b {
            proof {
                lemma_alphabet_position(k as int, b);
            }
            return Some(k as u128);
        }
        k = k + 1;
    }
    None
}

/// View ASCII bytes as a string slice, via `std::str::from_utf8`.
/// Claims that for bytes that are all below 128 the call succeeds and the
/// string holds one character per byte, with the same code.
#[verifier::external_body]
fn ascii_str(bytes: &[u8; 26]) -> (r: &str)
    requires
        forall|j: int| 0 <= j < 26 ==> #[trigger] bytes@[j] < 128,
    ensures
        r@ == bytes@.map_values(|b: u8| b as char),
{
    std::str::from_utf8(bytes).expect("id is ascii")
}

/// The 64 bits that a generator's seed puts above every id it hands out:
/// the seed's two halves folded together with exclusive or.
pub open spec fn seed_prefix(seed: u128) -> u64 {
    ((seed >> 64u128) ^ (seed & 0xffff_ffff_ffff_ffffu128)) as u64
}

/// The id a generator with `seed` hands out when its counter is `n`: the
/// folded seed in the high 64 bits, the counter in the low 64 bits.
pub open spec fn generated_id(seed: u128, n: u64) -> u128 {
    ((seed_prefix(seed) as u128) << 64u128) | (n as u128)
}

/// Counter value a fresh generator starts from.
pub const COUNTER_START: u64 = 0x1234_5678;

/// Spread a clock reading, a process id and a per-process count of
/// generators over the bits of a seed, so that generators made in one
/// nanosecond, or by two processes at once, differ.
pub fn mix_seed(nanos: u128, pid: u32, instance: u64) -> (r: u128)
    ensures
        r == nanos ^ ((pid as u128) << 64u128) ^ ((instance as u128) << 96u128),
{
    nanos ^ ((pid as u128) << 64u32) ^ ((instance as u128) << 96u32)
}

/// Hands out increasing ids: the folded seed above a running counter.
///
/// Each id is larger than the one before, until the counter wraps around
/// after 2^64 ids.
pub struct IdGenerator {
    counter: u64,
    seed: u128,
}

impl IdGenerator {
    /// The seed this generator mixes into every id.
    pub closed spec fn seed(&self) -> u128 {
        self.seed
    }

    /// The counter value the next id will be made from.
    pub closed spec fn counter(&self) -> u64 {
        self.counter
    }

    /// A generator with the given seed and a fresh counter.
    pub fn with_seed(seed: u128) -> (r: IdGenerator)
        ensures
            r.seed() == seed,
            r.counter() == COUNTER_START,
    {
        IdGenerator { counter: COUNTER_START, seed }
    }

    /// A generator seeded from the wall clock alone. A program that makes
    /// several generators at once seeds them with [`mix_seed`] through
    /// [`IdGenerator::with_seed`] instead.
    pub fn new() -> (r: IdGenerator)
        ensures
            r.counter() == COUNTER_START,
    {
        let nanos = match clock_nanos() {
            Some(n) => n,
            None => 0xdead_beef_cafe_babe,
        };
        Self::with_seed(nanos)
    }

    /// The next id; advances the counter by one (wrapping). Unless the
    /// counter wraps, the id after this one is larger.
    pub fn next(&mut self) -> (r: Id)
        ensures
            r.0 == generated_id(old(self).seed(), old(self).counter()),
            final(self).seed() == old(self).seed(),
            final(self).counter() == old(self).counter().wrapping_add(1),
            old(self).counter() < u64::MAX ==> r.0 < generated_id(
                final(self).seed(),
                final(self).counter(),
            ),
    {
        let n = self.counter;
        self.counter = self.counter.wrapping_add(1);
        let prefix: u64 = ((self.seed >> 64u32) ^ (self.seed & 0xffff_ffff_ffff_ffff)) as u64;
        proof {
            if n < u64::MAX {
                lemma_generated_ids_increase(self.seed, n, (n + 1) as u64);
            }
        }
        Id(((prefix as u128) << 64u32) | (n as u128))
    }
}

impl Default for IdGenerator {
    fn default() -> (r: IdGenerator)
        ensures
            r.counter() == COUNTER_START,
    {
        IdGenerator::new()
    }
}

#[verifier::external_type_specification]
#[verifier::external_body]
pub struct ExSystemTime(std::time::SystemTime);

/// The system clock's current reading, from `std::time::SystemTime::now`.
/// Nothing is claimed of it: it depends on the clock.
#[verifier::external_body]
fn clock_now() -> std::time::SystemTime {
    std::time::SystemTime::now()
}

/// How long after the Unix epoch `t` is, from
/// `SystemTime::duration_since(UNIX_EPOCH)`; `None` when `t` is earlier
/// than the epoch. Nothing is claimed of which comes back: `t` is an
/// opaque clock reading here.
#[verifier::external_body]
fn since_epoch(t: std::time::SystemTime) -> Option<std::time::Duration> {
    match t.duration_since(std::time::UNIX_EPOCH) {
        Ok(d) => Some(d),
        Err(_) => None,
    }
}

/// The whole nanoseconds in `d`, from `Duration::as_nanos`. The value is
/// not stated: a `Duration` is opaque here, and the one measured comes
/// from the clock.
#[verifier::external_body]
fn whole_nanos(d: std::time::Duration) -> u128 {
    d.as_nanos()
}

/// Nanoseconds since the Unix epoch by the system clock; `None` when the
/// clock reads earlier than the epoch.
fn clock_nanos() -> Option<u128> {
    match since_epoch(clock_now()) {
        Some(d) => Some(whole_nanos(d)),
        None => None,
    }
}

proof fn lemma_prefix_counter_order(p: u128, a: u128, b: u128)
    by (bit_vector)
    requires
        p < 0x1_0000_0000_0000_0000,
        a < b,
        b < 0x1_0000_0000_0000_0000,
    ensures
        (p << 64u128) | a < (p << 64u128) | b,
{
}

/// A generator's ids increase with its counter: a later counter value
/// gives a larger id.
pub proof fn lemma_generated_ids_increase(seed: u128, a: u64, b: u64)
    requires
        a < b,
    ensures
        generated_id(seed, a) < generated_id(seed, b),
{
    lemma_prefix_counter_order(seed_prefix(seed) as u128, a as u128, b as u128);
}

/// Two counter values of one generator give the same id only if they are
/// equal: the ids a generator hands out are distinct until its counter
/// wraps around.
pub proof fn lemma_generated_ids_distinct(seed: u128, a: u64, b: u64)
    requires
        a != b,
    ensures
        generated_id(seed, a) != generated_id(seed, b),
{
    if a < b {
        lemma_generated_ids_increase(seed, a, b);
    } else {
        lemma_generated_ids_increase(seed, b, a);
    }
}

} // verus!
