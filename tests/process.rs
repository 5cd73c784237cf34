use memsig::{open_process_by_name, MfError, ModuleEntry, OwnedProcess, ProcessEntry, Pattern, ByteMatch};

fn modules() -> Vec<ModuleEntry> {
    vec![
        ModuleEntry { name: "ntdll.dll".to_string(), base: 0x1000, size: 0x100 },
        ModuleEntry { name: "Game.EXE".to_string(), base: 0x4000, size: 0x200 },
        ModuleEntry { name: "game.exe".to_string(), base: 0x8000, size: 0x10 },
    ]
}

#[test]
fn find_module_ignores_ascii_case() {
    let proc = OwnedProcess::from_handle(1);
    let m = proc.find_module(modules(), "GAME.exe").unwrap();
    assert_eq!((m.base, m.size), (0x4000, 0x200));
}

#[test]
fn find_module_missing() {
    let proc = OwnedProcess::from_handle(1);
    assert_eq!(proc.find_module(modules(), "kernel32.dll").unwrap_err(), MfError::ModuleNotFound);
    assert_eq!(proc.find_module(vec![], "a").unwrap_err(), MfError::ModuleNotFound);
}

#[test]
fn scan_in_module_uses_its_range() {
    let proc = OwnedProcess::from_handle(1);
    let p = Pattern([ByteMatch::Wildcard]);
    let scan = proc.find_pattern_in_module(p, modules(), "NTDLL.DLL").unwrap();
    assert_eq!((scan.start, scan.len), (0x1000, 0x100));
    assert!(proc.find_pattern_in_module(p, modules(), "x").is_err());
}

#[test]
fn synthesis_in_module_uses_its_range() {
    let proc = OwnedProcess::from_handle(1);
    let syn = proc.create_pattern_in_module(0x4010, modules(), "game.exe", None).unwrap();
    assert_eq!((syn.start, syn.len, syn.target, syn.size), (0x4000, 0x200, 0x4010, 3));
    assert_eq!(
        proc.create_pattern_in_module(0, modules(), "y", Some(8)).unwrap_err(),
        MfError::ModuleNotFound
    );
}

#[test]
fn handle_round_trip() {
    assert_eq!(OwnedProcess::from_handle(42).into_handle(), 42);
}

#[test]
fn open_by_name_picks_first_match() {
    let ps = vec![
        ProcessEntry { id: 4, parent_id: 0, default_heap: 0, thread_count: 1, path: "System".to_string() },
        ProcessEntry { id: 9, parent_id: 4, default_heap: 0, thread_count: 3, path: "app.exe".to_string() },
        ProcessEntry { id: 11, parent_id: 4, default_heap: 0, thread_count: 2, path: "APP.exe".to_string() },
    ];
    assert_eq!(open_process_by_name(ps, "App.Exe").unwrap().id, 9);
}

#[test]
fn open_by_name_not_found() {
    let ps = vec![ProcessEntry { id: 4, parent_id: 0, default_heap: 0, thread_count: 1, path: "System".to_string() }];
    assert_eq!(open_process_by_name(ps, "app.exe").unwrap_err(), MfError::ProcessNotFound);
}

#[test]
fn non_ascii_case_is_kept() {
    let ps = vec![ProcessEntry { id: 1, parent_id: 0, default_heap: 0, thread_count: 1, path: "É.exe".to_string() }];
    assert!(open_process_by_name(ps, "é.exe").is_err());
}

#[test]
fn read_str_stops_at_zero() {
    let proc = OwnedProcess::from_handle(1);
    let mut r = proc.read_str(0x10);
    assert_eq!(r.next_read(), Some(0x10));
    r.feed(&[b'h', b'e', b'l', b'l']);
    assert_eq!(r.next_read(), Some(0x14));
    r.feed(&[b'o', 0, b'x', b'y']);
    assert_eq!(r.next_read(), None);
    assert_eq!(r.finish().unwrap(), "hello");
}

#[test]
fn read_str_invalid_utf8() {
    let proc = OwnedProcess::from_handle(1);
    let mut r = proc.read_str(0);
    r.feed(&[0xFF, 0xFE, 0, 0]);
    assert_eq!(r.finish().unwrap_err(), MfError::InvalidString);
}

#[test]
fn write_str_appends_terminator() {
    let proc = OwnedProcess::from_handle(1);
    assert_eq!(proc.write_str("ab"), vec![b'a', b'b', 0, 0, 0, 0]);
    assert_eq!(proc.write_str(""), vec![0, 0, 0, 0]);
}
