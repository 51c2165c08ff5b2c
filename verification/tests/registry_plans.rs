use winops::error::{sequence_step, SequenceStep};
use winops::onedrive::{disable_onedrive_sync, ONEDRIVE_POLICY_NAME};
use winops::registry::{
    decode_sz, delete_succeeded, disable_windows_notifications, dword_bytes, existing_number_bytes,
    notification_values, subkey_name, sz_bytes, RegistryData, RegistryRoot, REG_DWORD, REG_SZ, RESTART_HINT,
};
use winops::windows_update::{defer_windows_update, disable_delivery_optimization};

#[test]
fn notification_registry_values_match_previous_implementation() {
    let values = notification_values();
    assert_eq!(values.len(), 2);
    assert_eq!(values[0].subkey, r"Software\Policies\Microsoft\Windows\Explorer");
    assert_eq!(values[0].name, "DisableNotificationCenter");
    assert_eq!(values[0].value, 1);
    assert_eq!(values[1].subkey, r"Software\Microsoft\Windows\CurrentVersion\PushNotifications");
    assert_eq!(values[1].name, "ToastEnabled");
    assert_eq!(values[1].value, 0);
}

#[test]
fn restart_hint_is_available_without_ui_change() {
    assert!(RESTART_HINT.contains("再起動"));
}

#[test]
fn delivery_optimization_uses_http_only_mode() {
    let task = disable_delivery_optimization();
    assert_eq!(task.writes.len(), 1);
    assert_eq!(task.writes[0].name, "DODownloadMode");
    assert!(matches!(task.writes[0].data, RegistryData::Dword(0)));
    assert_eq!(task.writes[0].root, RegistryRoot::LocalMachine);
}

#[test]
fn onedrive_policy_name_is_disable_file_sync() {
    assert_eq!(ONEDRIVE_POLICY_NAME, "DisableFileSyncNGSC");
    let plan = disable_onedrive_sync();
    assert_eq!(plan.policy.writes[0].name, "DisableFileSyncNGSC");
    assert_eq!(plan.policy.writes[0].subkey, r"SOFTWARE\Policies\Microsoft\Windows\OneDrive");
    assert!(matches!(plan.policy.writes[0].data, RegistryData::Dword(1)));
    assert_eq!(plan.end_process, "OneDrive.exe");
}

#[test]
fn windows_update_is_deferred() {
    let task = defer_windows_update();
    let names: Vec<&str> = task.writes.iter().map(|w| w.name.as_str()).collect();
    assert_eq!(
        names,
        vec![
            "DeferFeatureUpdates",
            "DeferFeatureUpdatesPeriodInDays",
            "DeferQualityUpdates",
            "DeferQualityUpdatesPeriodInDays"
        ]
    );
    assert!(matches!(task.writes[1].data, RegistryData::Dword(365)));
    assert!(matches!(task.writes[3].data, RegistryData::Dword(30)));
}

#[test]
fn notifications_are_current_user_dwords() {
    let task = disable_windows_notifications();
    assert_eq!(task.operation, "通知センターの無効化に失敗しました");
    assert_eq!(task.writes.len(), 2);
    assert_eq!(task.writes[0].root, RegistryRoot::CurrentUser);
    assert!(matches!(task.writes[0].data, RegistryData::Dword(1)));
    assert!(matches!(task.writes[1].data, RegistryData::Dword(0)));
}

#[test]
fn values_are_stored_little_endian() {
    assert_eq!(dword_bytes(0x1234_5678), vec![0x78, 0x56, 0x34, 0x12]);
    assert_eq!(sz_bytes("0 0 0"), vec![b'0', 0, b' ', 0, b'0', 0, b' ', 0, b'0', 0, 0, 0]);
    assert_eq!(sz_bytes(""), vec![0, 0]);
    assert_eq!(sz_bytes("\u{1F600}"), vec![0x3D, 0xD8, 0x00, 0xDE, 0, 0]);
}

#[test]
fn string_values_read_back() {
    let bytes = sz_bytes("Intel(R) Ethernet");
    assert_eq!(decode_sz(0, REG_SZ, &bytes), Some("Intel(R) Ethernet".to_string()));
    assert_eq!(decode_sz(0, REG_DWORD, &bytes), None);
    assert_eq!(decode_sz(2, REG_SZ, &bytes), None);
    assert_eq!(decode_sz(0, REG_SZ, &[0x00, 0xD8, 0, 0]), None);
    assert_eq!(decode_sz(0, REG_SZ, &[b'a', 0, b'b']), Some("a".to_string()));
}

#[test]
fn existing_numbers_keep_their_type() {
    assert_eq!(existing_number_bytes(Some(REG_DWORD), 3), Some((REG_DWORD, vec![3, 0, 0, 0])));
    assert_eq!(existing_number_bytes(Some(REG_SZ), 24), Some((REG_SZ, vec![b'2', 0, b'4', 0, 0, 0])));
    assert_eq!(existing_number_bytes(Some(3), 0), None);
    assert_eq!(existing_number_bytes(None, 0), None);
}

#[test]
fn deleting_a_missing_value_succeeds() {
    assert!(delete_succeeded(0));
    assert!(delete_succeeded(2));
    assert!(!delete_succeeded(5));
}

#[test]
fn subkey_names_must_be_well_formed_and_not_empty() {
    let units: Vec<u16> = "0001".encode_utf16().collect();
    assert_eq!(subkey_name(&units), Some("0001".to_string()));
    assert_eq!(subkey_name(&[]), None);
    assert_eq!(subkey_name(&[0xDC00]), None);
}

#[test]
fn numbers_written_as_text_read_back_as_their_digits() {
    let Some((value_type, bytes)) = existing_number_bytes(Some(REG_SZ), 4294967295) else {
        panic!("a string setting is overwritten");
    };
    assert_eq!(value_type, REG_SZ);
    assert_eq!(decode_sz(0, REG_SZ, &bytes), Some("4294967295".to_string()));
}

#[test]
fn writes_stop_at_the_first_failure() {
    assert!(matches!(sequence_step(0, 2, Ok(())), SequenceStep::Run(0)));
    assert!(matches!(sequence_step(1, 2, Ok(())), SequenceStep::Run(1)));
    assert!(matches!(sequence_step(2, 2, Ok(())), SequenceStep::Finished(Ok(()))));
    assert!(matches!(sequence_step(0, 0, Ok(())), SequenceStep::Finished(Ok(()))));
    match sequence_step(1, 2, Err("op: denied".to_string())) {
        SequenceStep::Finished(Err(e)) => assert_eq!(e, "op: denied"),
        _ => panic!("a failure stops the writes"),
    }
}
