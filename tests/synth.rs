use memsig::{ByteMatch, MemoryImage, MfError, OwnedProcess, Step, Synthesis};

const SAMPLE: [u8; 11] = [9, 1, 2, 3, 4, 1, 2, 3, 4, 5, 8];

#[test]
fn unique_start_gives_three_bytes() {
    let img = MemoryImage { base: 0x100, bytes: vec![1, 2, 3, 4, 5, 6, 7, 8, 9, 10] };
    let sig = img.create_pattern(0x102, 0x100, 10, None).unwrap().unwrap();
    assert_eq!(sig.0, vec![ByteMatch::Exact(3), ByteMatch::Exact(4), ByteMatch::Exact(5)]);
}

#[test]
fn collisions_grow_the_signature() {
    let img = MemoryImage { base: 0, bytes: SAMPLE.to_vec() };
    let sig = img.create_pattern(1, 0, 11, None).unwrap().unwrap();
    let want: Vec<ByteMatch> = [1u8, 2, 3, 4, 1].iter().map(|b| ByteMatch::Exact(*b)).collect();
    assert_eq!(sig.0, want);
    assert_eq!(img.find_pattern(sig, 0, 11), vec![1]);
}

#[test]
fn budget_too_small_gives_none() {
    let img = MemoryImage { base: 0, bytes: SAMPLE.to_vec() };
    assert!(img.create_pattern(1, 0, 11, Some(4)).unwrap().is_none());
    assert!(img.create_pattern(1, 0, 11, Some(5)).unwrap().is_some());
}

#[test]
fn unreadable_target_is_an_error() {
    let img = MemoryImage { base: 0, bytes: vec![1, 2, 3] };
    assert_eq!(img.create_pattern(2, 0, 3, None).unwrap_err(), MfError::ReadFailure);
}

#[test]
fn synthesis_steps_by_hand() {
    let proc = OwnedProcess::from_handle(7);
    let mut syn: Synthesis = proc.create_pattern(50, 40, 20, Some(4));
    assert_eq!(syn.target_read(), (50, 3));
    let scan = syn.scan_for(&[1, 2, 3]);
    assert_eq!((scan.start, scan.len, scan.offset), (40, 20, 0));
    assert!(syn.on_collision(45));
    assert_eq!((syn.size, syn.offset), (4, 5));
    assert_eq!(syn.target_read(), (50, 4));
    let scan = syn.scan_for(&[1, 2, 3, 4]);
    assert_eq!((scan.start, scan.len), (45, 15));
    assert!(!syn.on_collision(47));
}

#[test]
fn hits_decide_the_next_step() {
    let proc = OwnedProcess::from_handle(7);
    let mut syn: Synthesis = proc.create_pattern(50, 40, 20, Some(4));
    assert_eq!(syn.on_hit(50), Step::KeepScanning);
    assert_eq!((syn.size, syn.offset), (3, 0));
    assert_eq!(syn.on_hit(52), Step::Grow);
    assert_eq!((syn.size, syn.offset), (4, 12));
    assert_eq!(syn.on_hit(55), Step::OverBudget);
    assert_eq!((syn.size, syn.offset), (4, 12));
    assert_eq!(syn.target_read(), (50, 4));
}

#[test]
fn budget_collision_at_max_gives_none() {
    // the four bytes at 1 occur again at 5, so a budget of four cannot do
    let img = MemoryImage { base: 0, bytes: SAMPLE.to_vec() };
    assert!(img.create_pattern(1, 0, 11, Some(3)).unwrap().is_none());
    assert!(img.create_pattern(1, 0, 11, Some(4)).unwrap().is_none());
}

#[test]
fn signature_matches_only_target() {
    let img = MemoryImage { base: 0x10, bytes: vec![7, 7, 7, 7, 1, 7, 7, 7, 7, 2, 7, 7] };
    let sig = img.create_pattern(0x10, 0x10, 12, None).unwrap().unwrap();
    assert_eq!(sig.size(), 5);
    assert_eq!(img.find_pattern(sig, 0x10, 12), vec![0x10]);
}
