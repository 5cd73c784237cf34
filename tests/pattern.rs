use memsig::{ByteMatch, DynPattern, Matcher, Pattern};

#[test]
fn exact_bytes_match_equal_window() {
    let p = DynPattern::from_bytes(&[1, 2, 3]);
    assert!(p.matches(&[1, 2, 3]));
    assert!(!p.matches(&[1, 2, 4]));
    assert_eq!(p.size(), 3);
}

#[test]
fn wildcard_accepts_any_byte() {
    let p = Pattern([ByteMatch::Exact(0xDE), ByteMatch::Wildcard, ByteMatch::Exact(0xEF)]);
    assert!(p.matches(&[0xDE, 0x00, 0xEF]));
    assert!(p.matches(&[0xDE, 0xFF, 0xEF]));
    assert!(!p.matches(&[0xDD, 0xFF, 0xEF]));
    assert!(!p.matches(&[0xDE, 0xFF, 0xEE]));
}

#[test]
fn trailing_window_bytes_are_ignored() {
    let p = Pattern([ByteMatch::Exact(7), ByteMatch::Exact(8)]);
    assert!(p.matches(&[7, 8, 9, 10]));
    assert!(!p.matches(&[7, 9, 8, 10]));
}

#[test]
fn empty_pattern_matches_everything() {
    let p = DynPattern::from_bytes(&[]);
    assert!(p.matches(&[]));
    assert!(p.matches(&[5]));
    assert_eq!(Matcher::size(&p), 0);
}

#[test]
fn static_to_dynamic_keeps_elements() {
    let p = Pattern([ByteMatch::Exact(1), ByteMatch::Wildcard, ByteMatch::Exact(3)]);
    let d = DynPattern::from_static(&p);
    assert_eq!(d.size(), 3);
    assert_eq!(d.0, vec![ByteMatch::Exact(1), ByteMatch::Wildcard, ByteMatch::Exact(3)]);
    for w in [[1u8, 2, 3], [1, 9, 3], [0, 2, 3], [1, 2, 4]] {
        assert_eq!(d.matches(&w), p.matches(&w));
    }
}

#[test]
fn from_bytes_is_all_exact() {
    let d = DynPattern::from_bytes(&[0, 255]);
    assert_eq!(d.0, vec![ByteMatch::Exact(0), ByteMatch::Exact(255)]);
}

#[test]
fn byte_match_single() {
    assert!(ByteMatch::Exact(4).matches(4));
    assert!(!ByteMatch::Exact(4).matches(5));
    assert!(ByteMatch::Wildcard.matches(0));
}
