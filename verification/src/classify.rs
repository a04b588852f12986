//! Process ownership classification, modeled after the Windows rules: a
//! process owned by the interactively logged-in user is never "system"; a
//! non-user process is "system" exactly when it is a known OS component by
//! name or its executable lives under the OS installation directory;
//! every other non-user process is "background".

use vstd::prelude::*;
use crate::textutil::{chars_of, eq_ignore_ascii_case, lower_char, lower_char_exec,
    vec_eq_ignore_ascii_case};

verus! {

/// The name ends in ".exe", ".EXE" or ".Exe" (the spellings the OS is
/// known to report).
pub open spec fn has_exe_suffix(s: Seq<char>) -> bool {
    s.len() >= 4 && s[s.len() - 4] == '.' && ((s[s.len() - 3] == 'e' && s[s.len() - 2] == 'x'
        && s[s.len() - 1] == 'e') || (s[s.len() - 3] == 'E' && s[s.len() - 2] == 'X' && s[s.len()
        - 1] == 'E') || (s[s.len() - 3] == 'E' && s[s.len() - 2] == 'x' && s[s.len() - 1] == 'e'))
}

/// The name with a trailing ".exe"/".EXE"/".Exe" removed; process names
/// are reported with or without the suffix depending on the OS version.
pub open spec fn strip_exe(s: Seq<char>) -> Seq<char> {
    if has_exe_suffix(s) {
        s.take(s.len() - 4)
    } else {
        s
    }
}

/// Case-insensitive match of two names, both with the suffix stripped.
pub open spec fn matches_known(name: Seq<char>, known: Seq<char>) -> bool {
    eq_ignore_ascii_case(strip_exe(name), strip_exe(known))
}

fn has_exe_suffix_exec(v: &Vec<char>) -> (r: bool)
    ensures
        r == has_exe_suffix(v@),
{
    let n = v.len();
    if n < 4 {
        return false;
    }
    v[n - 4] == '.' && ((v[n - 3] == 'e' && v[n - 2] == 'x' && v[n - 1] == 'e') || (v[n - 3] == 'E'
        && v[n - 2] == 'X' && v[n - 1] == 'E') || (v[n - 3] == 'E' && v[n - 2] == 'x' && v[n - 1]
        == 'e'))
}

fn strip_exe_exec(v: &Vec<char>) -> (r: Vec<char>)
    ensures
        r@ == strip_exe(v@),
{
    let mut r: Vec<char> = Vec::new();
    let keep = if has_exe_suffix_exec(v) {
        v.len() - 4
    } else {
        v.len()
    };
    let mut i: usize = 0;
    while i < keep
        invariant
            i <= keep <= v@.len(),
            r@ =~= v@.take(keep as int).take(i as int),
        decreases keep - i,
    {
        r.push(v[i]);
        proof {
            assert(v@.take(keep as int).take(i + 1) =~= v@.take(keep as int).take(i as int).push(
                v@[i as int],
            ));
        }
        i = i + 1;
    }
    assert(v@.take(keep as int).take(keep as int) =~= v@.take(keep as int));
    assert(keep == v@.len() ==> v@.take(keep as int) =~= v@);
    r
}

fn name_matches(name: &Vec<char>, known: &str) -> (r: bool)
    ensures
        r == matches_known(name@, known@),
{
    let kv = chars_of(known);
    let sn = strip_exe_exec(name);
    let sk = strip_exe_exec(&kv);
    vec_eq_ignore_ascii_case(&sn, &sk)
}

/// Does the name (suffix-stripped, case-insensitively) match one of the
/// core OS component names? Third-party services running under service
/// accounts are deliberately not on this list.
pub open spec fn spec_is_known_system_name(name: Seq<char>) -> bool {
    ||| matches_known(name, "System"@)
    ||| matches_known(name, "Registry"@)
    ||| matches_known(name, "smss.exe"@)
    ||| matches_known(name, "csrss.exe"@)
    ||| matches_known(name, "wininit.exe"@)
    ||| matches_known(name, "services.exe"@)
    ||| matches_known(name, "lsass.exe"@)
    ||| matches_known(name, "lsaiso.exe"@)
    ||| matches_known(name, "svchost.exe"@)
    ||| matches_known(name, "fontdrvhost.exe"@)
    ||| matches_known(name, "dwm.exe"@)
    ||| matches_known(name, "conhost.exe"@)
    ||| matches_known(name, "sihost.exe"@)
    ||| matches_known(name, "taskhostw.exe"@)
    ||| matches_known(name, "RuntimeBroker.exe"@)
    ||| matches_known(name, "ShellExperienceHost.exe"@)
    ||| matches_known(name, "StartMenuExperienceHost.exe"@)
    ||| matches_known(name, "SearchHost.exe"@)
    ||| matches_known(name, "TextInputHost.exe"@)
    ||| matches_known(name, "ctfmon.exe"@)
    ||| matches_known(name, "dllhost.exe"@)
    ||| matches_known(name, "WmiPrvSE.exe"@)
    ||| matches_known(name, "MsMpEng.exe"@)
    ||| matches_known(name, "NisSrv.exe"@)
    ||| matches_known(name, "SecurityHealthService.exe"@)
    ||| matches_known(name, "SecurityHealthSystray.exe"@)
    ||| matches_known(name, "SgrmBroker.exe"@)
    ||| matches_known(name, "MpDefenderCoreService.exe"@)
    ||| matches_known(name, "wuauclt.exe"@)
    ||| matches_known(name, "TrustedInstaller.exe"@)
    ||| matches_known(name, "TiWorker.exe"@)
    ||| matches_known(name, "spoolsv.exe"@)
    ||| matches_known(name, "SearchIndexer.exe"@)
    ||| matches_known(name, "SearchProtocolHost.exe"@)
    ||| matches_known(name, "SearchFilterHost.exe"@)
    ||| matches_known(name, "audiodg.exe"@)
    ||| matches_known(name, "WUDFHost.exe"@)
    ||| matches_known(name, "dasHost.exe"@)
    ||| matches_known(name, "CompPkgSrv.exe"@)
    ||| matches_known(name, "SystemSettingsBroker.exe"@)
    ||| matches_known(name, "SettingSyncHost.exe"@)
    ||| matches_known(name, "backgroundTaskHost.exe"@)
    ||| matches_known(name, "UserOOBEBroker.exe"@)
    ||| matches_known(name, "lsm.exe"@)
    ||| matches_known(name, "iphlpsvc.exe"@)
    ||| matches_known(name, "mDNSResponder.exe"@)
    ||| matches_known(name, "winlogon.exe"@)
    ||| matches_known(name, "LogonUI.exe"@)
    ||| matches_known(name, "LockApp.exe"@)
    ||| matches_known(name, "MemCompression"@)
    ||| matches_known(name, "vmmem"@)
    ||| matches_known(name, "System Idle Process"@)
    ||| matches_known(name, "wbengine.exe"@)
    ||| matches_known(name, "vds.exe"@)
    ||| matches_known(name, "sppsvc.exe"@)
    ||| matches_known(name, "SppExtComObj.Exe"@)
    ||| matches_known(name, "uhssvc.exe"@)
    ||| matches_known(name, "WaaSMedicAgent.exe"@)
    ||| matches_known(name, "AgentService.exe"@)
    ||| matches_known(name, "MoUsoCoreWorker.exe"@)
    ||| matches_known(name, "musNotificationUx.exe"@)
    ||| matches_known(name, "MusNotifyIcon.exe"@)
}

/// Is the process name that of a core OS component? Only such processes
/// (running under a non-user account, or found under the OS directory)
/// are classified "system".
#[verifier::rlimit(80)]
pub fn is_known_windows_system_process(name: &str) -> (r: bool)
    ensures
        r == spec_is_known_system_name(name@),
{
    let chars = chars_of(name);
    if name_matches(&chars, "System") {
        return true;
    }
    if name_matches(&chars, "Registry") {
        return true;
    }
    if name_matches(&chars, "smss.exe") {
        return true;
    }
    if name_matches(&chars, "csrss.exe") {
        return true;
    }
    if name_matches(&chars, "wininit.exe") {
        return true;
    }
    if name_matches(&chars, "services.exe") {
        return true;
    }
    if name_matches(&chars, "lsass.exe") {
        return true;
    }
    if name_matches(&chars, "lsaiso.exe") {
        return true;
    }
    if name_matches(&chars, "svchost.exe") {
        return true;
    }
    if name_matches(&chars, "fontdrvhost.exe") {
        return true;
    }
    if name_matches(&chars, "dwm.exe") {
        return true;
    }
    if name_matches(&chars, "conhost.exe") {
        return true;
    }
    if name_matches(&chars, "sihost.exe") {
        return true;
    }
    if name_matches(&chars, "taskhostw.exe") {
        return true;
    }
    if name_matches(&chars, "RuntimeBroker.exe") {
        return true;
    }
    if name_matches(&chars, "ShellExperienceHost.exe") {
        return true;
    }
    if name_matches(&chars, "StartMenuExperienceHost.exe") {
        return true;
    }
    if name_matches(&chars, "SearchHost.exe") {
        return true;
    }
    if name_matches(&chars, "TextInputHost.exe") {
        return true;
    }
    if name_matches(&chars, "ctfmon.exe") {
        return true;
    }
    if name_matches(&chars, "dllhost.exe") {
        return true;
    }
    if name_matches(&chars, "WmiPrvSE.exe") {
        return true;
    }
    if name_matches(&chars, "MsMpEng.exe") {
        return true;
    }
    if name_matches(&chars, "NisSrv.exe") {
        return true;
    }
    if name_matches(&chars, "SecurityHealthService.exe") {
        return true;
    }
    if name_matches(&chars, "SecurityHealthSystray.exe") {
        return true;
    }
    if name_matches(&chars, "SgrmBroker.exe") {
        return true;
    }
    if name_matches(&chars, "MpDefenderCoreService.exe") {
        return true;
    }
    if name_matches(&chars, "wuauclt.exe") {
        return true;
    }
    if name_matches(&chars, "TrustedInstaller.exe") {
        return true;
    }
    if name_matches(&chars, "TiWorker.exe") {
        return true;
    }
    if name_matches(&chars, "spoolsv.exe") {
        return true;
    }
    if name_matches(&chars, "SearchIndexer.exe") {
        return true;
    }
    if name_matches(&chars, "SearchProtocolHost.exe") {
        return true;
    }
    if name_matches(&chars, "SearchFilterHost.exe") {
        return true;
    }
    if name_matches(&chars, "audiodg.exe") {
        return true;
    }
    if name_matches(&chars, "WUDFHost.exe") {
        return true;
    }
    if name_matches(&chars, "dasHost.exe") {
        return true;
    }
    if name_matches(&chars, "CompPkgSrv.exe") {
        return true;
    }
    if name_matches(&chars, "SystemSettingsBroker.exe") {
        return true;
    }
    if name_matches(&chars, "SettingSyncHost.exe") {
        return true;
    }
    if name_matches(&chars, "backgroundTaskHost.exe") {
        return true;
    }
    if name_matches(&chars, "UserOOBEBroker.exe") {
        return true;
    }
    if name_matches(&chars, "lsm.exe") {
        return true;
    }
    if name_matches(&chars, "iphlpsvc.exe") {
        return true;
    }
    if name_matches(&chars, "mDNSResponder.exe") {
        return true;
    }
    if name_matches(&chars, "winlogon.exe") {
        return true;
    }
    if name_matches(&chars, "LogonUI.exe") {
        return true;
    }
    if name_matches(&chars, "LockApp.exe") {
        return true;
    }
    if name_matches(&chars, "MemCompression") {
        return true;
    }
    if name_matches(&chars, "vmmem") {
        return true;
    }
    if name_matches(&chars, "System Idle Process") {
        return true;
    }
    if name_matches(&chars, "wbengine.exe") {
        return true;
    }
    if name_matches(&chars, "vds.exe") {
        return true;
    }
    if name_matches(&chars, "sppsvc.exe") {
        return true;
    }
    if name_matches(&chars, "SppExtComObj.Exe") {
        return true;
    }
    if name_matches(&chars, "uhssvc.exe") {
        return true;
    }
    if name_matches(&chars, "WaaSMedicAgent.exe") {
        return true;
    }
    if name_matches(&chars, "AgentService.exe") {
        return true;
    }
    if name_matches(&chars, "MoUsoCoreWorker.exe") {
        return true;
    }
    if name_matches(&chars, "musNotificationUx.exe") {
        return true;
    }
    if name_matches(&chars, "MusNotifyIcon.exe") {
        return true;
    }
    false
}

/// The path, lowercased, is of the form `X:\windows\...` for any drive
/// letter, or starts with `\systemroot\`.
pub open spec fn spec_is_windows_system_path(p: Seq<char>) -> bool {
    ||| (p.len() >= 11 && lower_char(p[1]) == ':' && lower_char(p[2]) == '\\' && (forall|j: int|
        0 <= j < 8 ==> lower_char(#[trigger] p[3 + j]) == "windows\\"@[j]))
    ||| (p.len() >= 12 && (forall|j: int|
        0 <= j < 12 ==> lower_char(#[trigger] p[j]) == "\\systemroot\\"@[j]))
}

/// Is the executable path under the OS installation directory? Programs
/// elsewhere are not "system" even when they run under a system account.
pub fn is_windows_system_path(exe_path: &str) -> (r: bool)
    ensures
        r == spec_is_windows_system_path(exe_path@),
{
    proof {
        reveal_strlit("windows\\");
        reveal_strlit("\\systemroot\\");
    }
    let p = chars_of(exe_path);
    let win = chars_of("windows\\");
    let sysroot = chars_of("\\systemroot\\");
    let mut drive_form = false;
    if p.len() >= 11 && lower_char_exec(p[1]) == ':' && lower_char_exec(p[2]) == '\\' {
        let mut j: usize = 0;
        let mut all = true;
        while j < 8
            invariant
                j <= 8,
                p@.len() >= 11,
                win@.len() == 8,
                win@ == "windows\\"@,
                all <==> (forall|k: int|
                    0 <= k < j ==> lower_char(#[trigger] p@[3 + k]) == "windows\\"@[k]),
            decreases 8 - j,
        {
            let ok = lower_char_exec(p[3 + j]) == win[j];
            proof {
                if all && !ok {
                    assert(!(lower_char(p@[3 + j as int]) == "windows\\"@[j as int]));
                }
            }
            all = all && ok;
            j = j + 1;
        }
        drive_form = all;
    }
    if drive_form {
        return true;
    }
    if p.len() >= 12 {
        let mut j: usize = 0;
        let mut all = true;
        while j < 12
            invariant
                j <= 12,
                p@.len() >= 12,
                sysroot@.len() == 12,
                sysroot@ == "\\systemroot\\"@,
                all <==> (forall|k: int|
                    0 <= k < j ==> lower_char(#[trigger] p@[k]) == "\\systemroot\\"@[k]),
            decreases 12 - j,
        {
            let ok = lower_char_exec(p[j]) == sysroot[j];
            proof {
                if all && !ok {
                    assert(!(lower_char(p@[j as int]) == "\\systemroot\\"@[j as int]));
                }
            }
            all = all && ok;
            j = j + 1;
        }
        if all {
            return true;
        }
    }
    false
}

/// A process classifies as "system" exactly when it does not belong to
/// the current interactive user and is either a known OS component by
/// name or installed under the OS directory. User-owned processes are
/// never "system", whatever their name or path.
pub open spec fn spec_is_system_process(
    is_current_user: bool,
    name: Seq<char>,
    exe_path: Seq<char>,
) -> bool {
    !is_current_user && (spec_is_known_system_name(name) || spec_is_windows_system_path(exe_path))
}

/// Classify one process; `is_current_user` is the result of comparing the
/// process's token owner against the caller's (a platform query made by
/// the embedding application).
pub fn is_system_process(is_current_user: bool, name: &str, exe_path: &str) -> (r: bool)
    ensures
        r == spec_is_system_process(is_current_user, name@, exe_path@),
{
    if is_current_user {
        return false;
    }
    if is_known_windows_system_process(name) {
        return true;
    }
    if is_windows_system_path(exe_path) {
        return true;
    }
    false
}

/// Law: a process owned by the current interactive user is never
/// "system", regardless of name or path; a non-user process that is a
/// known OS name or lies under the OS directory is "system"; a non-user
/// process that is neither is "background" (not "system"), even when it
/// runs under a system account.
pub proof fn lemma_ownership_classification(user: bool, name: Seq<char>, exe_path: Seq<char>)
    ensures
        user ==> !spec_is_system_process(user, name, exe_path),
        !user && (spec_is_known_system_name(name) || spec_is_windows_system_path(exe_path))
            ==> spec_is_system_process(user, name, exe_path),
        !user && !spec_is_known_system_name(name) && !spec_is_windows_system_path(exe_path)
            ==> !spec_is_system_process(user, name, exe_path),
{
}

/// The identity of one process, as the platform reports it.
pub struct ProcIdent {
    pub pid: u32,
    pub name: String,
    pub exe_path: String,
    /// Whether the process token belongs to the current interactive user.
    pub is_current_user: bool,
}

/// The pids of `s` that classify as "system", in order.
pub open spec fn spec_system_pids(s: Seq<ProcIdent>) -> Seq<u32>
    decreases s.len(),
{
    if s.len() == 0 {
        Seq::<u32>::empty()
    } else {
        spec_system_pids(s.drop_last()) + (if spec_is_system_process(
            s.last().is_current_user,
            s.last().name@,
            s.last().exe_path@,
        ) {
            seq![s.last().pid]
        } else {
            Seq::<u32>::empty()
        })
    }
}

/// Batch-classify: the pids of the processes that are "system".
pub fn get_system_pids(procs: &Vec<ProcIdent>) -> (r: Vec<u32>)
    ensures
        r@ == spec_system_pids(procs@),
{
    let n = procs.len();
    let mut out: Vec<u32> = Vec::new();
    let mut i: usize = 0;
    while i < n
        invariant
            i <= n,
            n == procs@.len(),
            out@ =~= spec_system_pids(procs@.take(i as int)),
        decreases n - i,
    {
        let p = &procs[i];
        proof {
            assert(procs@.take(i + 1).drop_last() =~= procs@.take(i as int));
            assert(procs@.take(i + 1).last() == procs@[i as int]);
        }
        if is_system_process(p.is_current_user, p.name.as_str(), p.exe_path.as_str()) {
            out.push(p.pid);
        }
        i = i + 1;
    }
    assert(procs@.take(n as int) =~= procs@);
    out
}

} // verus!
