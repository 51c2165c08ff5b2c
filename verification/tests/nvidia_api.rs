use winops::nvidia::{
    check, color_switch_outcome, color_to_set, connected_display_ids, current_or_default_color,
    drs_settings, dword_setting, empty_color_data, missing_driver_error, nvapi_version, resolve_error,
    should_list_displays, status_error, status_message, write_u32, AA_MODE_SELECTOR_APP_CONTROL,
    AA_MODE_SELECTOR_ID, ANISO_MODE_SELECTOR_APP, ANISO_MODE_SELECTOR_ID, ID_DISP_COLOR_CONTROL,
    ID_DRS_CREATE_SESSION, ID_DRS_DESTROY_SESSION, ID_DRS_GET_BASE_PROFILE, ID_DRS_LOAD_SETTINGS,
    ID_DRS_SAVE_SETTINGS, ID_DRS_SET_SETTING, ID_ENUM_PHYSICAL_GPUS, ID_GPU_GET_CONNECTED_DISPLAY_IDS,
    ID_INITIALIZE, ID_UNLOAD, MISSING_DRIVER, NVAPI_ERROR, NVAPI_INVALID_USER_PRIVILEGE,
    NVAPI_LIBRARY_NOT_FOUND, NVAPI_NVIDIA_DEVICE_NOT_FOUND, NVDRS_DWORD_TYPE, NV_COLOR_CMD_GET,
    NV_COLOR_CMD_SET, NV_COLOR_DATA_SIZE, NV_COLOR_FORMAT_YUV422, NV_DRS_SETTING_SIZE,
    NV_GPU_DISPLAY_IDS_SIZE, OPERATION, PREFERRED_PSTATE_ID, PREFERRED_PSTATE_PREFER_MAX,
};

#[test]
fn function_ids_match_public_nvapi_headers() {
    assert_eq!(ID_INITIALIZE, 0x0150E828);
    assert_eq!(ID_UNLOAD, 0xD22BDD7E);
    assert_eq!(ID_DRS_CREATE_SESSION, 0x0694D52E);
    assert_eq!(ID_DRS_DESTROY_SESSION, 0xDAD9CFF8);
    assert_eq!(ID_DRS_LOAD_SETTINGS, 0x375DBD6B);
    assert_eq!(ID_DRS_SAVE_SETTINGS, 0xFCBC7E14);
    assert_eq!(ID_DRS_GET_BASE_PROFILE, 0xDA8466A0);
    assert_eq!(ID_DRS_SET_SETTING, 0x577DD202);
    assert_eq!(ID_ENUM_PHYSICAL_GPUS, 0xE5AC921F);
    assert_eq!(ID_GPU_GET_CONNECTED_DISPLAY_IDS, 0x0078DBA2);
    assert_eq!(ID_DISP_COLOR_CONTROL, 0x92F9D80D);
}

#[test]
fn setting_ids_match_nvapi_driver_settings_header() {
    assert_eq!(PREFERRED_PSTATE_ID, 0x1057EB71);
    assert_eq!(PREFERRED_PSTATE_PREFER_MAX, 1);
    assert_eq!(AA_MODE_SELECTOR_ID, 0x107EFC5B);
    assert_eq!(AA_MODE_SELECTOR_APP_CONTROL, 0);
    assert_eq!(ANISO_MODE_SELECTOR_ID, 0x10D2BB16);
    assert_eq!(ANISO_MODE_SELECTOR_APP, 0);
}

#[test]
fn maps_nvapi_status_to_japanese() {
    assert_eq!(status_message(NVAPI_LIBRARY_NOT_FOUND), MISSING_DRIVER);
    assert_eq!(status_message(NVAPI_NVIDIA_DEVICE_NOT_FOUND), MISSING_DRIVER);
    assert!(status_message(NVAPI_INVALID_USER_PRIVILEGE).contains("管理者として実行"));
    assert_eq!(status_message(-999), "エラーコード -999");
    assert!(status_error(NVAPI_ERROR).starts_with(OPERATION));
}

#[test]
fn struct_versions_encode_size_and_revision() {
    assert_eq!(NV_GPU_DISPLAY_IDS_SIZE, 16);
    assert_eq!(nvapi_version(NV_GPU_DISPLAY_IDS_SIZE, 3), 16 | (3 << 16));
    assert_eq!(NV_COLOR_DATA_SIZE, 24);
    assert_eq!(nvapi_version(NV_COLOR_DATA_SIZE, 5), 24 | (5 << 16));
    assert_eq!(NV_DRS_SETTING_SIZE, 12_320);
    assert_eq!(nvapi_version(NV_DRS_SETTING_SIZE, 1), 12_320 | (1 << 16));
}

#[test]
fn dword_setting_writes_current_value() {
    let setting = dword_setting(PREFERRED_PSTATE_ID, PREFERRED_PSTATE_PREFER_MAX);
    assert_eq!(setting.setting_id, PREFERRED_PSTATE_ID);
    assert_eq!(setting.setting_type, NVDRS_DWORD_TYPE);
    assert_eq!(
        u32::from_le_bytes(setting.current[..4].try_into().unwrap()),
        PREFERRED_PSTATE_PREFER_MAX
    );
    assert_eq!(setting.current.len(), 4100);
    assert_eq!(setting.predefined, setting.current);
    assert_eq!(setting.version, 12_320 | (1 << 16));
}

#[test]
fn status_texts_cover_every_known_status() {
    assert_eq!(status_message(0), "成功しました。");
    assert_eq!(status_message(-3), "このドライバーまたはモニターでは未対応です。");
    assert_eq!(status_message(-104), "このドライバーまたはモニターでは未対応です。");
    assert_eq!(status_message(-4), "NVAPIが初期化されていません。");
    assert_eq!(status_message(-5), "引数が不正です。");
    assert_eq!(status_message(-9), "構造体の版が合いません。");
    assert_eq!(status_message(-1), "処理に失敗しました。");
    assert_eq!(status_message(7), "エラーコード 7");
    assert_eq!(status_message(i32::MIN), "エラーコード -2147483648");
    assert_eq!(status_error(-5), "NVIDIA向け最適化に失敗しました: 引数が不正です。");
    assert!(check(0).is_ok());
    assert_eq!(check(-6).unwrap_err(), "NVIDIA向け最適化に失敗しました: NVIDIAドライバーが見つかりません。");
    assert_eq!(missing_driver_error(), "NVIDIA向け最適化に失敗しました: NVIDIAドライバーが見つかりません。");
    assert_eq!(resolve_error("Unload"), "NVIDIA向け最適化に失敗しました: NVAPIの関数を解決できませんでした (Unload)。");
}

#[test]
fn u32_is_written_little_endian_in_place() {
    let mut buffer = vec![9u8; 6];
    write_u32(&mut buffer, 0x0102_0304);
    assert_eq!(buffer, vec![4, 3, 2, 1, 9, 9]);
}

#[test]
fn base_profile_settings() {
    assert_eq!(
        drs_settings(),
        vec![(0x1057EB71, 1), (0x107EFC5B, 0), (0x10D2BB16, 0)]
    );
}

#[test]
fn color_requests() {
    let empty = empty_color_data();
    assert_eq!(empty.cmd, NV_COLOR_CMD_GET);
    assert_eq!(empty.size, 24);
    assert_eq!(empty.version, 24 | (5 << 16));
    assert_eq!(empty.colorimetry, 0xFE);
    assert_eq!(empty.dynamic_range, 0xFF);
    let mut fetched = empty;
    fetched.bpc = 10;
    fetched.color_selection_policy = 1;
    assert_eq!(current_or_default_color(0, fetched), fetched);
    assert_eq!(current_or_default_color(-1, fetched), empty);
    let set = color_to_set(fetched, NV_COLOR_FORMAT_YUV422);
    assert_eq!(set.cmd, NV_COLOR_CMD_SET);
    assert_eq!(set.color_format, 1);
    assert_eq!(set.bpc, 10);
    assert_eq!(set.color_selection_policy, 0);
}

#[test]
fn display_ids_skip_failures_and_zero_ids() {
    assert!(should_list_displays(0, 2));
    assert!(!should_list_displays(0, 0));
    assert!(!should_list_displays(-1, 2));
    assert_eq!(connected_display_ids(0, 3, &vec![5, 0, 7, 8]), vec![5, 7]);
    assert_eq!(connected_display_ids(0, 9, &vec![5, 0, 7]), vec![5, 7]);
    assert!(connected_display_ids(-3, 3, &vec![5, 6, 7]).is_empty());
}

#[test]
fn switching_colors_needs_one_display() {
    assert!(color_switch_outcome(0, 0).is_ok());
    assert!(color_switch_outcome(2, 1).is_ok());
    assert_eq!(
        color_switch_outcome(2, 0).unwrap_err(),
        "NVIDIA向け最適化に失敗しました: YCbCr 4:2:2 に切り替えられるモニターがありません。"
    );
}
