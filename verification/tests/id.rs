use edt::id::{mix_seed, Id, IdGenerator, IdParseError};
use std::collections::HashSet;

#[test]
fn ids_are_unique() {
    let mut gen = IdGenerator::new();
    let mut seen = HashSet::new();
    for _ in 0..10_000 {
        let id = gen.next();
        assert!(seen.insert(id), "duplicate id generated");
    }
}

#[test]
fn id_str_round_trips_value() {
    let id = Id(0x1234_5678_9abc_def0_1234_5678_9abc_def0);
    let s1 = id.as_str();
    let s2 = id.as_str();
    assert_eq!(s1.as_str(), s2.as_str());
    assert_eq!(s1.as_str().len(), 26);
}

#[test]
fn id_str_alphabet_is_crockford() {
    let id = Id(u128::MAX);
    let s = id.as_str();
    for b in s.as_str().bytes() {
        assert!(b"0123456789abcdefghjkmnpqrstvwxyz".contains(&b));
    }
}

#[test]
fn id_text_is_big_endian_base32() {
    assert_eq!(Id(0).as_str().as_str(), "00000000000000000000000000");
    assert_eq!(Id(31).as_str().as_str(), "0000000000000000000000000z");
    assert_eq!(Id(32).as_str().as_str(), "00000000000000000000000010");
    assert_eq!(Id(u128::MAX).as_str().as_str(), "7zzzzzzzzzzzzzzzzzzzzzzzzz");
}

#[test]
fn parse_reads_back_rendered_ids() {
    for v in [0u128, 1, 20, 22, 31, 32, 0xdead_beef, u128::MAX, 0x1234_5678_9abc_def0, 1 << 100] {
        let text = Id(v).as_str();
        assert_eq!(Id::parse(text.as_str().as_bytes()), Ok(Id(v)));
    }
}

#[test]
fn parse_rejects_wrong_length() {
    assert_eq!(Id::parse(b"123"), Err(IdParseError::WrongLength(3)));
    assert_eq!(Id::parse(b""), Err(IdParseError::WrongLength(0)));
}

#[test]
fn parse_rejects_first_invalid_char() {
    assert_eq!(
        Id::parse(b"0000000000000000000000000u"),
        Err(IdParseError::InvalidChar(b'u'))
    );
    assert_eq!(
        Id::parse(b"i0000000000000000000000!00"),
        Err(IdParseError::InvalidChar(b'i'))
    );
}

#[test]
fn parse_reads_m_and_p_as_their_digits() {
    let m = Id(20).as_str();
    assert_eq!(m.as_str(), "0000000000000000000000000m");
    assert_eq!(Id::parse(m.as_str().as_bytes()), Ok(Id(20)));
    let p = Id(22).as_str();
    assert_eq!(p.as_str(), "0000000000000000000000000p");
    assert_eq!(Id::parse(p.as_str().as_bytes()), Ok(Id(22)));
    assert_eq!(Id::parse(b"0000000000000000000000000n"), Ok(Id(21)));
    assert_eq!(Id::parse(b"0000000000000000000000000q"), Ok(Id(23)));
}

#[test]
fn generator_puts_folded_seed_above_counter() {
    let mut gen = IdGenerator::with_seed(0);
    let n: u128 = 0x1234_5678;
    assert_eq!(gen.next(), Id(n));
    assert_eq!(gen.next(), Id(n + 1));
    let mut seeded = IdGenerator::with_seed(0xff);
    assert_eq!(seeded.next(), Id((0xff << 64) | n));
    let mut both_halves = IdGenerator::with_seed((0xf0 << 64) | 0x0f);
    assert_eq!(both_halves.next(), Id((0xff << 64) | n));
}

#[test]
fn generated_ids_increase() {
    let mut gen = IdGenerator::with_seed(0xdead_beef_0000_0001_0000_0001);
    let mut last = gen.next();
    for _ in 0..1000 {
        let id = gen.next();
        assert!(id.0 > last.0);
        last = id;
    }
}

#[test]
fn mix_seed_spreads_pid_and_instance() {
    assert_eq!(mix_seed(5, 0, 0), 5);
    assert_eq!(mix_seed(5, 7, 0), 5 ^ (7u128 << 64));
    assert_eq!(mix_seed(5, 7, 3), 5 ^ (7u128 << 64) ^ (3u128 << 96));
    let a = IdGenerator::with_seed(mix_seed(1000, 42, 0)).next();
    let b = IdGenerator::with_seed(mix_seed(1000, 42, 1)).next();
    assert_ne!(a, b);
}

#[test]
fn id_text_sorts_like_values() {
    let values = [0u128, 1, 9, 10, 20, 21, 31, 32, 1000, 0xdead_beef, 1 << 100, u128::MAX - 1, u128::MAX];
    for w in values.windows(2) {
        let (a, b) = (Id(w[0]).as_str(), Id(w[1]).as_str());
        assert!(a.as_str() < b.as_str(), "{} !< {}", a.as_str(), b.as_str());
    }
}
