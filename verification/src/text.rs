//! Small text helpers of the editor's panels: reading a resolution typed
//! by the user, and shortening labels to fit.

use vstd::prelude::*;

verus! {

/// The characters of `s`, in order.
pub fn chars_of(s: &str) -> (r: Vec<char>)
    ensures
        r@ == s@,
{
    let mut out: Vec<char> = Vec::new();
    for c in it: s.chars()
        invariant
            out@ == it.seq().take(it.index() as int),
    {
        out.push(c);
    }
    proof {
        assert(out@ =~= s@);
    }
    out
}

/// Whether `c` is white space (the Unicode `White_Space` property, as
/// `char::is_whitespace` decides it).
pub open spec fn is_white(c: char) -> bool {
    let u = c as u32;
    (9 <= u <= 13) || u == 32 || u == 0x85 || u == 0xA0 || u == 0x1680 || (0x2000 <= u <= 0x200A)
        || u == 0x2028 || u == 0x2029 || u == 0x202F || u == 0x205F || u == 0x3000
}

fn char_is_white(c: char) -> (r: bool)
    ensures
        r == is_white(c),
{
    let u = c as u32;
    (9 <= u && u <= 13) || u == 32 || u == 0x85 || u == 0xA0 || u == 0x1680 || (0x2000 <= u && u
        <= 0x200A) || u == 0x2028 || u == 0x2029 || u == 0x202F || u == 0x205F || u == 0x3000
}

/// `s` without leading white space.
pub open spec fn trim_start(s: Seq<char>) -> Seq<char>
    decreases s.len(),
{
    if s.len() > 0 && is_white(s[0]) {
        trim_start(s.drop_first())
    } else {
        s
    }
}

/// `s` without trailing white space.
pub open spec fn trim_end(s: Seq<char>) -> Seq<char>
    decreases s.len(),
{
    if s.len() > 0 && is_white(s.last()) {
        trim_end(s.drop_last())
    } else {
        s
    }
}

/// `s` without leading and trailing white space.
pub open spec fn trim(s: Seq<char>) -> Seq<char> {
    trim_end(trim_start(s))
}

/// Whether `c` is an ASCII decimal digit.
pub open spec fn is_digit(c: char) -> bool {
    '0' <= c <= '9'
}

/// The number written by the decimal digits `s`.
pub open spec fn digits_value(s: Seq<char>) -> nat
    decreases s.len(),
{
    if s.len() == 0 {
        0
    } else {
        digits_value(s.drop_last()) * 10 + ((s.last() as u32) - 48) as nat
    }
}

/// `s` without a leading `+`, if it has one.
pub open spec fn unsigned_body(s: Seq<char>) -> Seq<char> {
    if s.len() > 0 && s[0] == '+' {
        s.drop_first()
    } else {
        s
    }
}

/// Whether every character of `s` is a decimal digit.
pub open spec fn all_digits(s: Seq<char>) -> bool {
    forall|i: int| 0 <= i < s.len() ==> is_digit(#[trigger] s[i])
}

/// What reading `s` as an unsigned 32-bit decimal number gives: an
/// optional `+`, then one or more digits, of value at most `u32::MAX`.
pub open spec fn parse_u32_spec(s: Seq<char>) -> Option<u32> {
    if unsigned_body(s).len() == 0 || !all_digits(unsigned_body(s)) {
        None
    } else if digits_value(unsigned_body(s)) > u32::MAX {
        None
    } else {
        Some(digits_value(unsigned_body(s)) as u32)
    }
}

/// What reading `s` as an unsigned 64-bit decimal number gives: an
/// optional `+`, then one or more digits, of value at most `u64::MAX`.
pub open spec fn parse_u64_spec(s: Seq<char>) -> Option<u64> {
    if unsigned_body(s).len() == 0 || !all_digits(unsigned_body(s)) {
        None
    } else if digits_value(unsigned_body(s)) > u64::MAX {
        None
    } else {
        Some(digits_value(unsigned_body(s)) as u64)
    }
}

/// Index of the first occurrence of `c` in `s`, if any.
pub open spec fn is_first_char(s: Seq<char>, c: char, i: int) -> bool {
    0 <= i < s.len() && s[i] == c && forall|j: int| 0 <= j < i ==> #[trigger] s[j] != c
}

/// Where `s` splits into width and height: at its first multiplication
/// sign (U+00D7), or, when it
/// has none, at its first `x`.
pub open spec fn separator_at(s: Seq<char>, i: int) -> bool {
    is_first_char(s, '\u{d7}', i) || ((forall|j: int| 0 <= j < s.len() ==> #[trigger] s[j] != '\u{d7}')
        && is_first_char(s, 'x', i))
}

/// Largest width or height accepted.
pub const MAX_DIMENSION: u32 = 16384;

proof fn lemma_digits_prefix(s: Seq<char>, i: int)
    requires
        0 <= i <= s.len(),
        forall|k: int| 0 <= k < s.len() ==> is_digit(#[trigger] s[k]),
    ensures
        digits_value(s.take(i)) <= digits_value(s),
    decreases s.len() - i,
{
    if i < s.len() {
        lemma_digits_prefix(s, i + 1);
        assert(s.take(i + 1).drop_last() =~= s.take(i));
    } else {
        assert(s.take(i) =~= s);
    }
}

/// Read `s[from..to]` as an unsigned 32-bit decimal number.
fn parse_u32(s: &Vec<char>, from: usize, to: usize) -> (r: Option<u32>)
    requires
        from <= to <= s@.len(),
    ensures
        r == parse_u32_spec(s@.subrange(from as int, to as int)),
{
    let ghost t = s@.subrange(from as int, to as int);
    let mut start = from;
    if start < to && s[start] == '+' {
        start = start + 1;
    }
    let ghost body = s@.subrange(start as int, to as int);
    proof {
        if from < to && s@[from as int] == '+' {
            assert(body =~= t.drop_first());
        } else {
            assert(body =~= t);
        }
    }
    if start == to {
        return None;
    }
    let mut value: u64 = 0;
    let mut i = start;
    while i < to
        invariant
            from <= start <= i <= to <= s@.len(),
            start < to,
            t == s@.subrange(from as int, to as int),
            body == s@.subrange(start as int, to as int),
            body == unsigned_body(t),
            forall|k: int| start <= k < i ==> is_digit(#[trigger] s@[k]),
            value == digits_value(s@.subrange(start as int, i as int)),
            value <= u32::MAX,
        decreases to - i,
    {
        let c = s[i];
        if !('0' <= c && c <= '9') {
            proof {
                assert(body[i - start] == c);
                assert(!is_digit(body[i - start]));
                assert(0 <= i - start < body.len());
                assert(!(forall|k: int| 0 <= k < body.len() ==> is_digit(#[trigger] body[k])));
                assert(body.len() > 0);
                assert(parse_u32_spec(t) is None);
            }
            return None;
        }
        let d = (c as u32 - 48) as u64;
        proof {
            assert(s@.subrange(start as int, i + 1).drop_last() =~= s@.subrange(
                start as int,
                i as int,
            ));
        }
        value = value * 10 + d;
        if value > 0xFFFF_FFFF {
            proof {
                if forall|k: int| 0 <= k < body.len() ==> is_digit(#[trigger] body[k]) {
                    lemma_digits_prefix(body, i + 1 - start);
                    assert(body.take(i + 1 - start) =~= s@.subrange(start as int, i + 1));
                }
                assert(parse_u32_spec(t) is None);
            }
            return None;
        }
        i = i + 1;
    }
    proof {
        assert(s@.subrange(start as int, i as int) =~= body);
    }
    Some(value as u32)
}

/// Read `s` as an unsigned 64-bit decimal number, as `str::parse` does.
pub fn parse_u64(s: &str) -> (r: Option<u64>)
    ensures
        r == parse_u64_spec(s@),
{
    let cs = chars_of(s);
    let ghost t = s@;
    let mut start: usize = 0;
    if start < cs.len() && cs[start] == '+' {
        start = 1;
    }
    let ghost body = cs@.subrange(start as int, cs@.len() as int);
    proof {
        if cs@.len() > 0 && cs@[0] == '+' {
            assert(body =~= t.drop_first());
        } else {
            assert(body =~= t);
        }
    }
    if start == cs.len() {
        return None;
    }
    let mut value: u128 = 0;
    let mut i = start;
    while i < cs.len()
        invariant
            start <= i <= cs@.len(),
            start < cs@.len(),
            cs@ == t,
            t == s@,
            body == cs@.subrange(start as int, cs@.len() as int),
            body == unsigned_body(t),
            forall|k: int| start <= k < i ==> is_digit(#[trigger] cs@[k]),
            value == digits_value(cs@.subrange(start as int, i as int)),
            value <= u64::MAX,
        decreases cs@.len() - i,
    {
        let c = cs[i];
        if !('0' <= c && c <= '9') {
            proof {
                assert(body[i - start] == c);
                assert(!is_digit(body[i - start]));
                assert(0 <= i - start < body.len());
                assert(!(forall|k: int| 0 <= k < body.len() ==> is_digit(#[trigger] body[k])));
                assert(body.len() > 0);
                assert(parse_u64_spec(t) is None);
            }
            return None;
        }
        let d = (c as u32 - 48) as u128;
        proof {
            assert(cs@.subrange(start as int, i + 1).drop_last() =~= cs@.subrange(
                start as int,
                i as int,
            ));
        }
        value = value * 10 + d;
        if value > 0xFFFF_FFFF_FFFF_FFFF {
            proof {
                if forall|k: int| 0 <= k < body.len() ==> is_digit(#[trigger] body[k]) {
                    lemma_digits_prefix(body, i + 1 - start);
                    assert(body.take(i + 1 - start) =~= cs@.subrange(start as int, i + 1));
                }
                assert(parse_u64_spec(t) is None);
            }
            return None;
        }
        i = i + 1;
    }
    proof {
        assert(cs@.subrange(start as int, i as int) =~= body);
    }
    Some(value as u64)
}

/// Bounds of `s[from..to]` with leading and trailing white space removed.
fn trim_bounds(s: &Vec<char>, from: usize, to: usize) -> (r: (usize, usize))
    requires
        from <= to <= s@.len(),
    ensures
        from <= r.0 <= r.1 <= to,
        s@.subrange(r.0 as int, r.1 as int) == trim(s@.subrange(from as int, to as int)),
{
    let mut a = from;
    while a < to && char_is_white(s[a])
        invariant
            from <= a <= to <= s@.len(),
            trim_start(s@.subrange(from as int, to as int)) == trim_start(
                s@.subrange(a as int, to as int),
            ),
        decreases to - a,
    {
        proof {
            assert(s@.subrange(a as int, to as int).drop_first() =~= s@.subrange(
                a + 1,
                to as int,
            ));
        }
        a = a + 1;
    }
    let mut b = to;
    while b > a && char_is_white(s[b - 1])
        invariant
            from <= a <= b <= to <= s@.len(),
            trim(s@.subrange(from as int, to as int)) == trim_end(s@.subrange(a as int, b as int)),
        decreases b - a,
    {
        proof {
            assert(s@.subrange(a as int, b as int).drop_last() =~= s@.subrange(
                a as int,
                b - 1,
            ));
        }
        b = b - 1;
    }
    (a, b)
}

/// Index of the first `c` in `s`, if any.
fn find_char(s: &Vec<char>, c: char) -> (r: Option<usize>)
    ensures
        r matches Some(i) ==> is_first_char(s@, c, i as int),
        r is None ==> forall|j: int| 0 <= j < s@.len() ==> #[trigger] s@[j] != c,
{
    let mut i: usize = 0;
    while i < s.len()
        invariant
            i <= s@.len(),
            forall|j: int| 0 <= j < i ==> #[trigger] s@[j] != c,
        decreases s@.len() - i,
    {
        if s[i] == c {
            return Some(i);
        }
        i = i + 1;
    }
    None
}

/// The index where `s` splits into width and height, if it has one.
pub open spec fn separator_index(s: Seq<char>) -> Option<int> {
    if exists|i: int| separator_at(s, i) {
        Some(choose|i: int| separator_at(s, i))
    } else {
        None
    }
}

/// What reading `s` as a resolution `W×H` or `WxH` gives: split at the
/// separator, each side trimmed of white space and read as a number, both
/// between 1 and 16384.
pub open spec fn resolution_spec(s: Seq<char>) -> Option<(u32, u32)> {
    match separator_index(s) {
        None => None,
        Some(i) => match (
            parse_u32_spec(trim(s.take(i))),
            parse_u32_spec(trim(s.skip(i + 1))),
        ) {
            (Some(w), Some(h)) => if 1 <= w <= MAX_DIMENSION && 1 <= h <= MAX_DIMENSION {
                Some((w, h))
            } else {
                None
            },
            _ => None,
        },
    }
}

proof fn lemma_separator_unique(s: Seq<char>, i: int, k: int)
    requires
        separator_at(s, i),
        separator_at(s, k),
    ensures
        i == k,
{
}

/// Read a resolution typed as `W×H` or `WxH` (white space around either
/// number allowed); `None` unless both numbers are between 1 and 16384.
pub fn parse_resolution(s: &str) -> (r: Option<(u32, u32)>)
    ensures
        r == resolution_spec(s@),
{
    let cs = chars_of(s);
    let sep = match find_char(&cs, '\u{d7}') {
        Some(i) => i,
        None => match find_char(&cs, 'x') {
            Some(i) => i,
            None => {
                return None;
            },
        },
    };
    proof {
        assert(separator_at(s@, sep as int));
        lemma_separator_unique(s@, sep as int, choose|i: int| separator_at(s@, i));
        assert(s@.take(sep as int) =~= s@.subrange(0, sep as int));
        assert(s@.skip(sep + 1) =~= s@.subrange(sep + 1, s@.len() as int));
    }
    let (wa, wb) = trim_bounds(&cs, 0, sep);
    let (ha, hb) = trim_bounds(&cs, sep + 1, cs.len());
    let w = match parse_u32(&cs, wa, wb) {
        Some(w) => w,
        None => return None,
    };
    let h = match parse_u32(&cs, ha, hb) {
        Some(h) => h,
        None => return None,
    };
    if w == 0 || h == 0 || w > MAX_DIMENSION || h > MAX_DIMENSION {
        return None;
    }
    Some((w, h))
}

/// Append a character, via `String::push`.
#[verifier::external_body]
pub(crate) fn push_char(s: &mut String, c: char)
    ensures
        final(s)@ == old(s)@.push(c),
{
    s.push(c);
}

/// Append the characters of `t` to `s`.
pub(crate) fn append_str(s: &mut String, t: &str)
    ensures
        final(s)@ == old(s)@ + t@,
{
    let cs = chars_of(t);
    let ghost start = s@;
    let mut i: usize = 0;
    while i < cs.len()
        invariant
            i <= cs@.len(),
            cs@ == t@,
            s@ == start + cs@.take(i as int),
        decreases cs@.len() - i,
    {
        push_char(s, cs[i]);
        proof {
            assert(cs@.take(i + 1) =~= cs@.take(i as int).push(cs@[i as int]));
        }
        i = i + 1;
    }
    proof {
        assert(cs@.take(i as int) =~= cs@);
    }
}

/// The label shown for `s` in at most `max` characters: `s` itself when it
/// fits, otherwise its first `max - 1` characters and an ellipsis; empty
/// when `max` is 0.
pub open spec fn truncated(s: Seq<char>, max: nat) -> Seq<char> {
    if max == 0 {
        Seq::empty()
    } else if s.len() <= max {
        s
    } else {
        s.take(max - 1).push('\u{2026}')
    }
}

/// Shorten `s` to at most `max` characters, marking a cut with an ellipsis.
pub fn truncate(s: &str, max: usize) -> (r: String)
    ensures
        r@ == truncated(s@, max as nat),
{
    if max == 0 {
        return String::new();
    }
    let cs = chars_of(s);
    if cs.len() <= max {
        return s.to_owned();
    }
    let mut out = String::new();
    let mut i: usize = 0;
    while i < max - 1
        invariant
            max >= 1,
            max < cs@.len(),
            i <= max - 1,
            out@ == cs@.take(i as int),
        decreases max - 1 - i,
    {
        push_char(&mut out, cs[i]);
        proof {
            assert(cs@.take(i + 1) =~= cs@.take(i as int).push(cs@[i as int]));
        }
        i = i + 1;
    }
    push_char(&mut out, '\u{2026}');
    out
}

} // verus!
