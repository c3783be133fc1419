use edt::text::{parse_resolution, truncate};

#[test]
fn resolution_parses_both_separators() {
    assert_eq!(parse_resolution("1920x1080"), Some((1920, 1080)));
    assert_eq!(parse_resolution("1280\u{d7}720"), Some((1280, 720)));
    assert_eq!(parse_resolution(" 3840 x 2160 "), Some((3840, 2160)));
    assert_eq!(parse_resolution("+640x+480"), Some((640, 480)));
}

#[test]
fn resolution_rejects_bad_input() {
    assert_eq!(parse_resolution("1920"), None);
    assert_eq!(parse_resolution("0x1080"), None);
    assert_eq!(parse_resolution("16385x100"), None);
    assert_eq!(parse_resolution("16384x16384"), Some((16384, 16384)));
    assert_eq!(parse_resolution("axb"), None);
    assert_eq!(parse_resolution("-1x5"), None);
    assert_eq!(parse_resolution("99999999999x5"), None);
    assert_eq!(parse_resolution("x"), None);
    // The multiplication sign wins over an earlier 'x'.
    assert_eq!(parse_resolution("10x2\u{d7}3"), None);
}

#[test]
fn truncate_marks_cut_with_ellipsis() {
    assert_eq!(truncate("hello", 0), "");
    assert_eq!(truncate("hello", 5), "hello");
    assert_eq!(truncate("hello", 9), "hello");
    assert_eq!(truncate("hello world", 5), "hell\u{2026}");
    assert_eq!(truncate("h\u{e9}llo", 2), "h\u{2026}");
    assert_eq!(truncate("hello", 1), "\u{2026}");
}
