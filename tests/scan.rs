use memsig::{ByteMatch, DynPattern, MemoryImage, OwnedProcess, Pattern, Scan};

fn image(base: usize, bytes: &[u8]) -> MemoryImage {
    MemoryImage { base, bytes: bytes.to_vec() }
}

#[test]
fn exact_pattern_found_once_at_offset_four() {
    let mut bytes = vec![0u8; 16];
    bytes[4] = 0xDE;
    bytes[5] = 0xAD;
    let img = image(0, &bytes);
    let p = Pattern([ByteMatch::Exact(0xDE), ByteMatch::Exact(0xAD)]);
    assert_eq!(img.find_pattern(p, 0, 16), vec![4]);
}

#[test]
fn wildcard_pattern_found_twice() {
    let img = image(0, &[0xDE, 0xAD, 0xEF, 0xDE, 0xFF, 0xEF]);
    let p = Pattern([ByteMatch::Exact(0xDE), ByteMatch::Wildcard, ByteMatch::Exact(0xEF)]);
    assert_eq!(img.find_pattern(p, 0, 6), vec![0, 3]);
}

#[test]
fn scan_without_match_is_empty() {
    let img = image(0x400, &[1, 2, 3, 4, 5, 6, 7, 8]);
    let p = DynPattern::from_bytes(&[9, 9]);
    assert_eq!(img.find_pattern(p, 0x400, 8), Vec::<usize>::new());
}

#[test]
fn scan_stops_at_unreadable_region() {
    let img = image(0, &[1, 2, 3, 4, 5, 6, 7, 8]);
    let p = DynPattern::from_bytes(&[0xAA]);
    assert_eq!(img.find_pattern(p, 0, 100), Vec::<usize>::new());
}

#[test]
fn scan_unreadable_start_is_empty() {
    let img = image(0x100, &[0xAA, 0xAA]);
    let p = DynPattern::from_bytes(&[0xAA]);
    assert_eq!(img.find_pattern(p, 0xF0, 0x20), Vec::<usize>::new());
}

#[test]
fn scan_ignores_matches_past_the_range() {
    let img = image(0, &[5, 5, 5, 5, 5]);
    let p = DynPattern::from_bytes(&[5]);
    assert_eq!(img.find_pattern(p, 1, 2), vec![1, 2]);
}

#[test]
fn scan_of_empty_range_reads_nothing() {
    let proc = OwnedProcess::from_handle(3);
    let scan = proc.find_pattern(DynPattern::from_bytes(&[1]), 10, 0);
    assert_eq!(scan.next_read(), None);
}

#[test]
fn scan_steps_by_hand() {
    let proc = OwnedProcess::from_handle(3);
    let mut scan: Scan<DynPattern> = proc.find_pattern(DynPattern::from_bytes(&[1, 2]), 100, 3);
    assert_eq!(scan.window_size(), 2);
    assert_eq!(scan.next_read(), Some(100));
    assert_eq!(scan.feed(Some(&[1, 2])), Some(100));
    assert_eq!(scan.next_read(), Some(101));
    assert_eq!(scan.feed(Some(&[2, 1])), None);
    assert_eq!(scan.next_read(), Some(102));
    assert_eq!(scan.feed(None), None);
    assert_eq!(scan.next_read(), None);
}
