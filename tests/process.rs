use fps_unlock::process::{alive_from_status, find_module, find_process, name_matches, wait_step, ModuleEntry, ModuleInfo, ProcessEntry, WaitAction, RETRY_DELAY_MS, STILL_ACTIVE};

fn wide(s: &str) -> Vec<u16> {
    s.encode_utf16().collect()
}

fn padded(s: &str) -> Vec<u16> {
    let mut w = wide(s);
    w.resize(260, 0);
    w
}

#[test]
fn names_compare_without_ascii_case_up_to_nul() {
    assert!(name_matches(&padded("GenshinImpact.exe"), &wide("genshinimpact.EXE")));
    assert!(!name_matches(&padded("GenshinImpact.exe"), &wide("GenshinImpact")));
    assert!(!name_matches(&wide("ab\0cd"), &wide("abcd")));
    assert!(name_matches(&wide("ab"), &wide("AB")));
}

#[test]
fn first_matching_process_wins() {
    let entries = vec![
        ProcessEntry { pid: 4, exe_name: padded("System") },
        ProcessEntry { pid: 100, exe_name: padded("game.exe") },
        ProcessEntry { pid: 200, exe_name: padded("GAME.EXE") },
    ];
    assert_eq!(find_process(&entries, &wide("Game.exe")), Some(100));
    assert_eq!(find_process(&entries, &wide("other.exe")), None);
    assert_eq!(find_process(&[], &wide("game.exe")), None);
}

#[test]
fn module_lookup_returns_base_and_size() {
    let entries = vec![
        ModuleEntry { name: padded("ntdll.dll"), base_address: 0x7000, size: 0x100 },
        ModuleEntry { name: padded("UnityPlayer.dll"), base_address: 0x400000, size: 0x2000 },
    ];
    assert_eq!(find_module(&entries, &wide("unityplayer.dll")), Some(ModuleInfo { base_address: 0x400000, size: 0x2000 }));
    assert_eq!(find_module(&entries, &wide("kernel32.dll")), None);
}

#[test]
fn exited_or_unknown_process_is_not_alive() {
    assert!(!alive_from_status(true, 0));
    assert!(!alive_from_status(false, STILL_ACTIVE));
    assert!(!alive_from_status(false, 0));
    assert!(alive_from_status(true, STILL_ACTIVE));
}

#[test]
fn wait_retries_until_opened_or_limit() {
    assert_eq!(wait_step(1, None, true), WaitAction::Done);
    assert_eq!(wait_step(1000, None, false), WaitAction::Retry(RETRY_DELAY_MS));
    assert_eq!(wait_step(2, Some(3), false), WaitAction::Retry(100));
    assert_eq!(wait_step(3, Some(3), false), WaitAction::GiveUp);
    assert_eq!(wait_step(3, Some(3), true), WaitAction::Done);
}
