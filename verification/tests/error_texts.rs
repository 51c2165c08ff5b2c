use winops::error::{
    detail_for_win32, format_operation_error, from_windows_error, is_class_not_registered,
    is_skippable_network_error, win32_code_from_hresult, WindowsError,
};

#[test]
fn maps_access_denied_hresult_to_win32_code() {
    assert_eq!(win32_code_from_hresult(0x8007_0005u32 as i32), 5);
}

#[test]
fn maps_privilege_errors_to_elevation_message() {
    let message = format_operation_error("ネットワーク設定の変更に失敗しました", 5);
    assert!(message.contains("管理者として実行"));
    assert_eq!(
        detail_for_win32(1314),
        "権限が不足しています。管理者として実行してください。"
    );
}

#[test]
fn maps_not_found_errors() {
    assert_eq!(detail_for_win32(2), "対象が見つかりません。");
    assert_eq!(detail_for_win32(1168), "対象が見つかりません。");
}

#[test]
fn skips_stale_network_connection_errors() {
    // HRESULT of Win32 error 2250 (ERROR_NOT_CONNECTED).
    let error = WindowsError { code: 0x8007_08CAu32 as i32, message: String::new() };
    assert!(is_skippable_network_error(&error));
    assert!(is_class_not_registered(0x8004_0154));
}

#[test]
fn other_hresults_keep_their_value() {
    assert_eq!(win32_code_from_hresult(0x8004_0154u32 as i32), 0x8004_0154);
    assert_eq!(win32_code_from_hresult(0), 0);
    assert_eq!(win32_code_from_hresult(0x8007_FFFFu32 as i32), 0xFFFF);
}

#[test]
fn unknown_codes_show_the_number() {
    assert_eq!(detail_for_win32(87), "エラーコード 87");
    assert_eq!(detail_for_win32(0), "エラーコード 0");
    assert_eq!(detail_for_win32(u32::MAX), "エラーコード 4294967295");
    assert_eq!(format_operation_error("x", 1), "x: エラーコード 1");
}

#[test]
fn class_not_registered_has_two_forms() {
    assert!(is_class_not_registered(0x0154));
    assert!(!is_class_not_registered(0x8007_0154));
}

#[test]
fn network_errors_by_code_and_by_message() {
    let missing = WindowsError { code: 0x8007_0002u32 as i32, message: String::new() };
    assert!(is_skippable_network_error(&missing));
    let text = WindowsError { code: 0x8000_4005u32 as i32, message: "The network does not exist.".to_string() };
    assert!(is_skippable_network_error(&text));
    let other = WindowsError { code: 0x8000_4005u32 as i32, message: "Unspecified error".to_string() };
    assert!(!is_skippable_network_error(&other));
}

#[test]
fn windows_errors_prefer_fixed_texts_then_the_message() {
    let denied = WindowsError { code: 0x8007_0005u32 as i32, message: "Access is denied.".to_string() };
    assert_eq!(
        from_windows_error("op", &denied),
        "op: 権限が不足しています。管理者として実行してください。"
    );
    let with_message = WindowsError { code: 0x8000_4005u32 as i32, message: "Unspecified error".to_string() };
    assert_eq!(from_windows_error("op", &with_message), "op: Unspecified error");
    let without = WindowsError { code: 0x8007_0057u32 as i32, message: String::new() };
    assert_eq!(from_windows_error("op", &without), "op: エラーコード 87");
}
