use winops::folders::{join_path, prefer_known_folder};
use winops::purge::{is_license_backup, purge_obs_settings, purge_vmix_settings, reset_vmix_registration};

#[test]
fn prefers_non_empty_known_folder_path() {
    let path = prefer_known_folder(Some(r"D:\Redirected\Downloads".to_string())).unwrap();
    assert_eq!(path, r"D:\Redirected\Downloads");
}

#[test]
fn rejects_missing_or_empty_known_folder_path() {
    assert!(prefer_known_folder(None).is_err());
    assert!(prefer_known_folder(Some(String::new())).is_err());
}

#[test]
fn vmix_paths_match_issue_description() {
    let local = r"C:\Users\SPDG\AppData\Local";
    assert_eq!(
        join_path(&join_path(local, "StudioCoast Pty Ltd"), "vMix"),
        r"C:\Users\SPDG\AppData\Local\StudioCoast Pty Ltd\vMix"
    );
    assert_eq!(
        join_path(local, "StudioCoast_Pty_Ltd"),
        r"C:\Users\SPDG\AppData\Local\StudioCoast_Pty_Ltd"
    );
    let plan = purge_vmix_settings(local);
    assert_eq!(
        plan.remove_trees,
        vec![
            r"C:\Users\SPDG\AppData\Local\StudioCoast Pty Ltd\vMix".to_string(),
            r"C:\Users\SPDG\AppData\Local\StudioCoast_Pty_Ltd".to_string(),
        ]
    );
    assert_eq!(plan.end_processes, vec!["vMix.exe".to_string(), "vMix64.exe".to_string()]);
}

#[test]
fn vmix_registration_paths_match_program_data() {
    let program_data = r"C:\ProgramData\vMix";
    assert_eq!(join_path(program_data, "es.xml"), r"C:\ProgramData\vMix\es.xml");
    assert_eq!(join_path(program_data, "s.xml"), r"C:\ProgramData\vMix\s.xml");
    assert_eq!(
        join_path(&join_path(program_data, "backups"), "es.xml.1"),
        r"C:\ProgramData\vMix\backups\es.xml.1"
    );
    let plan = reset_vmix_registration(r"C:\ProgramData");
    assert_eq!(
        plan.remove_files,
        vec![r"C:\ProgramData\vMix\es.xml".to_string(), r"C:\ProgramData\vMix\s.xml".to_string()]
    );
    assert_eq!(plan.backups_dir, r"C:\ProgramData\vMix\backups");
}

#[test]
fn joining_keeps_a_single_separator() {
    assert_eq!(join_path(r"C:\", "Users"), r"C:\Users");
    assert_eq!(join_path("", "Users"), "Users");
    assert_eq!(join_path("a/", "b"), "a/b");
    assert_eq!(join_path("C:", "Users"), "C:Users");
    assert_eq!(join_path("1:", "Users"), r"1:\Users");
    assert_eq!(join_path(r"C:\Users", "a"), r"C:\Users\a");
}

#[test]
fn obs_settings_live_in_roaming_app_data() {
    let plan = purge_obs_settings(r"C:\Users\a\AppData\Roaming");
    assert_eq!(plan.end_processes, vec!["obs64.exe".to_string(), "obs32.exe".to_string()]);
    assert_eq!(plan.remove_trees, vec![r"C:\Users\a\AppData\Roaming\obs-studio".to_string()]);
    assert_eq!(plan.operation, "OBS設定の削除に失敗しました");
}

#[test]
fn license_backups_are_named_after_license_files() {
    assert!(is_license_backup("es.xml"));
    assert!(is_license_backup("es.xml.1"));
    assert!(is_license_backup("s.xml.bak"));
    assert!(!is_license_backup("es.xml1"));
    assert!(!is_license_backup("other.xml"));
    assert!(!is_license_backup("s.xm"));
}
