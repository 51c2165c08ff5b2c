use winops::desktop::{
    hide_icons_write, is_taskbar_class, min_animate, solid_wallpaper_settings, visual_effects_write,
    with_hide_icons, HIDE_ICONS_BIT,
};
use winops::error::{first_failure, from_win32_error, hresult_from_win32, prefixed_error};
use winops::network::{network_enum_step, should_make_private, NetworkEnumStep};
use winops::power::{
    change_power_settings, disable_bus_power_saving, is_missing_setting, scheme_exists, value_write_failure,
    HIBERNATE_TIMEOUT, HIGH_PERFORMANCE_SCHEME, PCIEXPRESS_ASPM, POWERBUTTON_ACTION, SLEEP_SUBGROUP,
    STANDBY_TIMEOUT, SYSTEM_BUTTON_SUBGROUP, USB_SELECTIVE_SUSPEND, VIDEO_POWERDOWN_TIMEOUT,
};
use winops::process::{discord_leveldb_dir, is_vanished_process, wide_to_string};
use winops::registry::RegistryData;
use winops::shell::{logout_chrome_error, relaunch_refused_error, shell_execute_failed, GOOGLE_LOGOUT_URL};
use winops::sticky_keys::{sticky_keys_disabled, SKF_CONFIRMHOTKEY, SKF_HOTKEYACTIVE, SKF_STICKYKEYSON};

fn guid_from_hyphenated(value: &str) -> u128 {
    let hex: String = value.chars().filter(|c| *c != '-').collect();
    u128::from_str_radix(&hex, 16).expect("valid GUID hex")
}

#[test]
fn solid_wallpaper_uses_black() {
    let writes = solid_wallpaper_settings();
    assert_eq!(writes[1].name, "Background");
    match &writes[1].data {
        RegistryData::Sz(value) => assert_eq!(value, "0 0 0"),
        RegistryData::Dword(_) => panic!("the background color is a string"),
    }
    match &writes[0].data {
        RegistryData::Sz(value) => assert_eq!(value, ""),
        RegistryData::Dword(_) => panic!("the wallpaper is a string"),
    }
}

#[test]
fn logout_url_matches_previous_implementation() {
    assert_eq!(GOOGLE_LOGOUT_URL, "http://accounts.google.com/logout");
}

#[test]
fn power_guids_match_previous_powershell_implementation() {
    assert_eq!(HIGH_PERFORMANCE_SCHEME, guid_from_hyphenated("8c5e7fda-e8bf-4a96-9a85-a6e23a8c635c"));
    assert_eq!(SYSTEM_BUTTON_SUBGROUP, guid_from_hyphenated("4f971e89-eebd-4455-a8de-9e59040e7347"));
    assert_eq!(POWERBUTTON_ACTION, guid_from_hyphenated("7648efa3-dd9c-4e3e-b566-50f929386280"));
    assert_eq!(SLEEP_SUBGROUP, guid_from_hyphenated("238c9fa8-0aad-41ed-83f4-97be242c8f20"));
    assert_eq!(STANDBY_TIMEOUT, guid_from_hyphenated("29f6c1db-86da-48c5-9fdb-f2b67b1f44da"));
    assert_eq!(VIDEO_POWERDOWN_TIMEOUT, guid_from_hyphenated("3c0bc019-c8a8-4e32-8ff6-4ea39ae5c035"));
    assert_eq!(HIBERNATE_TIMEOUT, guid_from_hyphenated("9d7815a6-7ee4-458c-8c55-4ec09ba02559"));
    assert_eq!(PCIEXPRESS_ASPM, guid_from_hyphenated("ee12f906-d277-404b-b6da-e5fa1a576df5"));
    assert_eq!(USB_SELECTIVE_SUSPEND, guid_from_hyphenated("48e6b7a6-50f5-4782-a5d4-143dd0d2b298"));
}

#[test]
fn missing_power_setting_is_skippable() {
    assert!(is_missing_setting(2));
    assert!(is_missing_setting(1168));
    assert!(!is_missing_setting(0));
}

#[test]
fn sticky_key_disable_clears_hotkey_flags() {
    let flags = SKF_STICKYKEYSON | SKF_HOTKEYACTIVE | SKF_CONFIRMHOTKEY | 0x10;
    assert_eq!(sticky_keys_disabled(flags), 0x10);
    assert_eq!(sticky_keys_disabled(0x2), 0x2);
}

#[test]
fn power_writes_fail_only_for_real_errors() {
    assert_eq!(value_write_failure(0, 0, true), None);
    assert_eq!(value_write_failure(2, 1168, false), None);
    assert_eq!(value_write_failure(2, 0, true), Some(2));
    assert_eq!(value_write_failure(5, 0, false), Some(5));
    assert_eq!(value_write_failure(0, 87, false), Some(87));
    assert!(scheme_exists(0));
    assert!(scheme_exists(234));
    assert!(!scheme_exists(2));
    let plan = change_power_settings();
    assert_eq!(plan.scheme, HIGH_PERFORMANCE_SCHEME);
    assert_eq!(plan.writes.len(), 4);
    assert!(plan.writes[0].required);
    assert!(!plan.writes[1].required);
    assert_eq!(plan.writes[3].operation, "電源ボタン設定の変更に失敗しました");
    assert_eq!(disable_bus_power_saving().len(), 2);
}

#[test]
fn desktop_icons_bit_and_taskbars() {
    assert_eq!(with_hide_icons(0x0003, true), 0x1003);
    assert_eq!(with_hide_icons(0x1003, false), 0x0003);
    assert_eq!(with_hide_icons(-1, false), -1 & !HIDE_ICONS_BIT);
    assert!(is_taskbar_class("Shell_TrayWnd"));
    assert!(is_taskbar_class("Shell_SecondaryTrayWnd"));
    assert!(!is_taskbar_class("shell_traywnd"));
    assert!(matches!(hide_icons_write(true).data, RegistryData::Dword(1)));
    assert!(matches!(hide_icons_write(false).data, RegistryData::Dword(0)));
    assert!(matches!(visual_effects_write(false).data, RegistryData::Dword(2)));
    assert!(matches!(visual_effects_write(true).data, RegistryData::Dword(0)));
    assert_eq!(min_animate(false), 0);
    assert_eq!(min_animate(true), 1);
}

#[test]
fn shell_results_and_texts() {
    assert!(shell_execute_failed(2));
    assert!(shell_execute_failed(32));
    assert!(!shell_execute_failed(33));
    assert!(!shell_execute_failed(-1));
    assert_eq!(
        logout_chrome_error(2),
        "Chromeのログアウトに失敗しました: 既定ブラウザの起動に失敗しました (コード 2)"
    );
    assert_eq!(
        relaunch_refused_error(),
        "管理者としての再起動に失敗しました: 管理者権限の要求が拒否されたか、起動に失敗しました。"
    );
}

#[test]
fn network_enumeration_steps() {
    assert!(should_make_private(0));
    assert!(!should_make_private(1));
    assert_eq!(network_enum_step(true, 0, 0), NetworkEnumStep::Finished);
    assert_eq!(network_enum_step(true, 1, 0), NetworkEnumStep::Visit);
    assert_eq!(network_enum_step(false, 0, 1), NetworkEnumStep::Finished);
    assert_eq!(network_enum_step(false, 0, 0x8000_4005u32 as i32), NetworkEnumStep::Fail);
}

#[test]
fn first_failure_is_reported_after_all_steps() {
    assert_eq!(first_failure(&vec![Ok(()), Ok(())]), Ok(()));
    assert_eq!(first_failure(&vec![]), Ok(()));
    assert_eq!(
        first_failure(&vec![Ok(()), Err("a".to_string()), Err("b".to_string())]),
        Err("a".to_string())
    );
}

#[test]
fn win32_errors_become_texts() {
    assert_eq!(hresult_from_win32(5), 0x8007_0005u32 as i32);
    assert_eq!(hresult_from_win32(0), 0);
    assert_eq!(hresult_from_win32(0x8004_0154), 0x8004_0154u32 as i32);
    assert_eq!(
        from_win32_error("DHCP設定の変更に失敗しました", 5, "Access is denied."),
        "DHCP設定の変更に失敗しました: 権限が不足しています。管理者として実行してください。"
    );
    assert_eq!(from_win32_error("op", 1232, "The network location cannot be reached."), "op: The network location cannot be reached.");
    assert_eq!(from_win32_error("op", 1232, ""), "op: エラーコード 1232");
    assert_eq!(prefixed_error("op", "io"), "op: io");
}

#[test]
fn process_helpers() {
    assert!(is_vanished_process(0x8007_0057u32 as i32));
    assert!(is_vanished_process(0x8007_0002u32 as i32));
    assert!(!is_vanished_process(0x8007_0005u32 as i32));
    let buffer: Vec<u16> = "Discord.exe".encode_utf16().chain([0, 65, 66]).collect();
    assert_eq!(wide_to_string(&buffer), "Discord.exe");
    assert_eq!(wide_to_string(&[0xD800, 0x41]), "\u{FFFD}A");
    assert_eq!(
        discord_leveldb_dir(r"C:\Users\a"),
        r"C:\Users\a\AppData\Roaming\Discord\Local Storage\leveldb"
    );
}

#[test]
fn ill_formed_names_replace_each_unpaired_surrogate() {
    assert_eq!(wide_to_string(&[0xDC00, 0x41, 0]), "\u{FFFD}A");
    assert_eq!(wide_to_string(&[0xD83D, 0xDE00]), "\u{1F600}");
    assert_eq!(wide_to_string(&[0xD800, 0xD800, 0xDC00]), "\u{FFFD}\u{10000}");
    assert_eq!(wide_to_string(&[0x41, 0xD800]), "A\u{FFFD}");
}
