//! Removal of the settings that OBS and vMix keep, and of vMix's registration files.

use vstd::prelude::*;
use vstd::string::*;
use crate::folders::{join_path, joined_path};

verus! {

/// Programs to end (their failures are ignored) and folders to remove with all they hold,
/// stopping at the first folder that cannot be removed.
pub struct PurgePlan {
    pub operation: String,
    pub end_processes: Vec<String>,
    pub remove_trees: Vec<String>,
}

/// The executables of vMix.
pub open spec fn vmix_processes() -> Seq<Seq<char>> {
    seq!["vMix.exe"@, "vMix64.exe"@]
}

/// The executables of vMix, ended before its files are touched.
pub fn stop_vmix() -> (names: Vec<String>)
    ensures
        names@.map_values(|s: String| s@) == vmix_processes(),
{
    let mut names: Vec<String> = Vec::new();
    names.push(String::from_str("vMix.exe"));
    names.push(String::from_str("vMix64.exe"));
    assert(names@.map_values(|s: String| s@) =~= vmix_processes());
    names
}

/// OBS's settings: end OBS, then remove `obs-studio` in the roaming application data folder.
pub fn purge_obs_settings(roaming_app_data: &str) -> (plan: PurgePlan)
    ensures
        plan.operation@ == "OBS設定の削除に失敗しました"@,
        plan.end_processes@.map_values(|s: String| s@) == seq!["obs64.exe"@, "obs32.exe"@],
        plan.remove_trees@.map_values(|s: String| s@) == seq![joined_path(roaming_app_data@, "obs-studio"@)],
{
    let mut end_processes: Vec<String> = Vec::new();
    end_processes.push(String::from_str("obs64.exe"));
    end_processes.push(String::from_str("obs32.exe"));
    let mut remove_trees: Vec<String> = Vec::new();
    remove_trees.push(join_path(roaming_app_data, "obs-studio"));
    assert(end_processes@.map_values(|s: String| s@) =~= seq!["obs64.exe"@, "obs32.exe"@]);
    assert(remove_trees@.map_values(|s: String| s@) =~= seq![joined_path(roaming_app_data@, "obs-studio"@)]);
    PurgePlan { operation: String::from_str("OBS設定の削除に失敗しました"), end_processes, remove_trees }
}

/// The two folders where vMix keeps its settings, under the local application data folder.
pub open spec fn vmix_settings_dirs(local_app_data: Seq<char>) -> Seq<Seq<char>> {
    seq![
        joined_path(joined_path(local_app_data, "StudioCoast Pty Ltd"@), "vMix"@),
        joined_path(local_app_data, "StudioCoast_Pty_Ltd"@),
    ]
}

/// vMix's settings: end vMix, then remove its two settings folders.
pub fn purge_vmix_settings(local_app_data: &str) -> (plan: PurgePlan)
    ensures
        plan.operation@ == "vMix設定の削除に失敗しました"@,
        plan.end_processes@.map_values(|s: String| s@) == vmix_processes(),
        plan.remove_trees@.map_values(|s: String| s@) == vmix_settings_dirs(local_app_data@),
{
    let end_processes = stop_vmix();
    let mut remove_trees: Vec<String> = Vec::new();
    let company = join_path(local_app_data, "StudioCoast Pty Ltd");
    remove_trees.push(join_path(company.as_str(), "vMix"));
    remove_trees.push(join_path(local_app_data, "StudioCoast_Pty_Ltd"));
    assert(remove_trees@.map_values(|s: String| s@) =~= vmix_settings_dirs(local_app_data@));
    PurgePlan { operation: String::from_str("vMix設定の削除に失敗しました"), end_processes, remove_trees }
}

/// The names of vMix's license files.
pub open spec fn license_files() -> Seq<Seq<char>> {
    seq!["es.xml"@, "s.xml"@]
}

/// Removing vMix's registration: end vMix, remove each license file in the vMix folder of the
/// program data folder, then the license backups in its `backups` folder.
pub struct RegistrationReset {
    pub operation: String,
    pub end_processes: Vec<String>,
    pub remove_files: Vec<String>,
    pub backups_dir: String,
}

/// The plan for removing vMix's registration under the program data folder.
pub fn reset_vmix_registration(program_data: &str) -> (plan: RegistrationReset)
    ensures
        plan.operation@ == "vMix登録キーの削除に失敗しました"@,
        plan.end_processes@.map_values(|s: String| s@) == vmix_processes(),
        plan.remove_files@.map_values(|s: String| s@) == seq![
            joined_path(joined_path(program_data@, "vMix"@), "es.xml"@),
            joined_path(joined_path(program_data@, "vMix"@), "s.xml"@),
        ],
        plan.backups_dir@ == joined_path(joined_path(program_data@, "vMix"@), "backups"@),
{
    let end_processes = stop_vmix();
    let vmix = join_path(program_data, "vMix");
    let mut remove_files: Vec<String> = Vec::new();
    remove_files.push(join_path(vmix.as_str(), "es.xml"));
    remove_files.push(join_path(vmix.as_str(), "s.xml"));
    let backups_dir = join_path(vmix.as_str(), "backups");
    assert(remove_files@.map_values(|s: String| s@) =~= seq![
        joined_path(joined_path(program_data@, "vMix"@), "es.xml"@),
        joined_path(joined_path(program_data@, "vMix"@), "s.xml"@),
    ]);
    RegistrationReset {
        operation: String::from_str("vMix登録キーの削除に失敗しました"),
        end_processes,
        remove_files,
        backups_dir,
    }
}

/// A file in the backups folder is a license backup when it is named like a license file, or
/// like one followed by `.` and anything.
pub open spec fn is_license_backup_name(name: Seq<char>) -> bool {
    exists|i: int| 0 <= i < license_files().len() && {
        let f = #[trigger] license_files()[i];
        name == f || (f + seq!['.']).is_prefix_of(name)
    }
}

/// Whether `text` starts with `prefix`.
pub fn starts_with(text: &str, prefix: &str) -> (r: bool)
    ensures
        r == prefix@.is_prefix_of(text@),
{
    let n = prefix.unicode_len();
    let m = text.unicode_len();
    if n > m {
        return false;
    }
    let mut i: usize = 0;
    while i < n
        invariant
            n == prefix@.len(),
            m == text@.len(),
            n <= m,
            i <= n,
            forall|k: int| 0 <= k < i ==> prefix@[k] == text@[k],
        decreases n - i,
    {
        if prefix.get_char(i) != text.get_char(i) {
            return false;
        }
        i = i + 1;
    }
    true
}

/// Whether a file found in vMix's backups folder is a license backup to remove.
pub fn is_license_backup(name: &str) -> (r: bool)
    ensures
        r == is_license_backup_name(name@),
{
    let es = starts_with(name, "es.xml.") || eq_text(name, "es.xml");
    let s = starts_with(name, "s.xml.") || eq_text(name, "s.xml");
    proof {
        reveal_strlit("es.xml.");
        reveal_strlit("es.xml");
        reveal_strlit("s.xml.");
        reveal_strlit("s.xml");
        assert("es.xml"@ + seq!['.'] == "es.xml."@);
        assert("s.xml"@ + seq!['.'] == "s.xml."@);
        assert(license_files()[0] == "es.xml"@);
        assert(license_files()[1] == "s.xml"@);
    }
    es || s
}

/// Whether two texts are equal.
pub fn eq_text(a: &str, b: &str) -> (r: bool)
    ensures
        r == (a@ == b@),
{
    let n = a.unicode_len();
    let m = b.unicode_len();
    if n != m {
        return false;
    }
    let mut i: usize = 0;
    while i < n
        invariant
            n == a@.len(),
            m == b@.len(),
            n == m,
            i <= n,
            forall|k: int| 0 <= k < i ==> a@[k] == b@[k],
        decreases n - i,
    {
        if a.get_char(i) != b.get_char(i) {
            return false;
        }
        i = i + 1;
    }
    assert(a@ =~= b@);
    true
}

} // verus!
