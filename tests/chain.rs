use memsig::{MemoryImage, MfError, OwnedProcess};

fn put_word(bytes: &mut [u8], at: usize, w: u64) {
    bytes[at..at + 8].copy_from_slice(&w.to_le_bytes());
}

#[test]
fn empty_chain_returns_base() {
    let img = MemoryImage { base: 0, bytes: vec![] };
    assert_eq!(img.resolve_multilevel(0xDEAD, &[]), Ok(0xDEAD));
}

#[test]
fn two_level_chain() {
    let mut bytes = vec![0u8; 0x30];
    put_word(&mut bytes, 0x08, 0x1020);
    put_word(&mut bytes, 0x20, 0xABCD);
    let img = MemoryImage { base: 0x1000, bytes };
    assert_eq!(img.resolve_multilevel(0x1000, &[8, 0]), Ok(0xABCD));
}

#[test]
fn chain_fails_on_second_read() {
    let mut bytes = vec![0u8; 0x30];
    put_word(&mut bytes, 0x08, 0x9000);
    let img = MemoryImage { base: 0x1000, bytes };
    assert_eq!(img.resolve_multilevel(0x1000, &[8, 0]), Err(MfError::ReadFailure));
}

#[test]
fn chain_fails_on_first_read() {
    let img = MemoryImage { base: 0x1000, bytes: vec![0u8; 0x30] };
    assert_eq!(img.resolve_multilevel(0x5000, &[8, 0]), Err(MfError::ReadFailure));
}

#[test]
fn chain_offsets_wrap() {
    let mut bytes = vec![0u8; 0x10];
    put_word(&mut bytes, 0, 77);
    let img = MemoryImage { base: 0, bytes };
    assert_eq!(img.resolve_multilevel(1, &[usize::MAX]), Ok(77));
}

#[test]
fn chain_steps_by_hand() {
    let proc = OwnedProcess::from_handle(1);
    let mut chain = proc.resolve_multilevel(0x1000, &[8, 0]);
    assert_eq!(chain.next_read(), Some(0x1008));
    assert_eq!(chain.resolved(), None);
    chain.feed(0x2000);
    assert_eq!(chain.next_read(), Some(0x2000));
    chain.feed(0x3000);
    assert_eq!(chain.next_read(), None);
    assert_eq!(chain.resolved(), Some(0x3000));
}
