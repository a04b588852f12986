use digger::classify::{
    get_system_pids, is_known_windows_system_process, is_system_process, is_windows_system_path,
    ProcIdent,
};

#[test]
fn test_known_system_names() {
    assert!(is_known_windows_system_process("svchost.exe"));
    assert!(is_known_windows_system_process("svchost"));
    assert!(is_known_windows_system_process("SVCHOST.EXE"));
    assert!(is_known_windows_system_process("System Idle Process"));
    assert!(is_known_windows_system_process("SppExtComObj.Exe"));
    assert!(!is_known_windows_system_process("anydesk.exe"));
    assert!(!is_known_windows_system_process(""));
}

#[test]
fn test_system_path() {
    assert!(is_windows_system_path("C:\\Windows\\System32\\svchost.exe"));
    assert!(is_windows_system_path("d:\\windows\\explorer.exe"));
    assert!(is_windows_system_path("\\SystemRoot\\System32\\smss.exe"));
    assert!(!is_windows_system_path("C:\\Program Files\\App\\app.exe"));
    assert!(!is_windows_system_path(""));
}

#[test]
fn test_ownership_classification() {
    // A process owned by the interactive user is never "system",
    // whatever its name or path.
    assert!(!is_system_process(true, "svchost.exe", "C:\\Windows\\System32\\svchost.exe"));
    // A non-user process under the OS directory with a known name is
    // "system".
    assert!(is_system_process(false, "svchost.exe", "C:\\Windows\\System32\\svchost.exe"));
    // A non-user process outside the OS directory with an unknown name is
    // "background" even under a system account.
    assert!(!is_system_process(false, "anydesk.exe", "C:\\Program Files\\AnyDesk\\ad.exe"));
    // Either signal alone suffices for a non-user process.
    assert!(is_system_process(false, "svchost.exe", "D:\\elsewhere\\svchost.exe"));
    assert!(is_system_process(false, "thirdparty.exe", "C:\\Windows\\Temp\\thirdparty.exe"));
}

#[test]
fn test_get_system_pids() {
    let procs = vec![
        ProcIdent {
            pid: 4,
            name: "System".to_string(),
            exe_path: String::new(),
            is_current_user: false,
        },
        ProcIdent {
            pid: 100,
            name: "notepad.exe".to_string(),
            exe_path: "C:\\Windows\\notepad.exe".to_string(),
            is_current_user: true,
        },
        ProcIdent {
            pid: 200,
            name: "agent.exe".to_string(),
            exe_path: "C:\\Tools\\agent.exe".to_string(),
            is_current_user: false,
        },
    ];
    assert_eq!(get_system_pids(&procs), vec![4]);
}
