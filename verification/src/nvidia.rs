//! NVIDIA driver settings through NvAPI: the interface ids, the status texts, the versioned
//! structures and the decisions between the driver calls.

use vstd::prelude::*;
use vstd::string::*;
use crate::text::{push_signed_decimal, signed_decimal};

verus! {

pub const OPERATION: &'static str = "NVIDIA向け最適化に失敗しました";
pub const MISSING_DRIVER: &'static str = "NVIDIAドライバーが見つかりません。";
/// How long to wait, in seconds, between switching displays to RGB and to YCbCr 4:2:2.
pub const COLOR_WAIT_SECONDS: u64 = 3;

/// NvAPI_Initialize
pub const ID_INITIALIZE: u32 = 0x0150_E828;
/// NvAPI_Unload
pub const ID_UNLOAD: u32 = 0xD22B_DD7E;
/// NvAPI_DRS_CreateSession
pub const ID_DRS_CREATE_SESSION: u32 = 0x0694_D52E;
/// NvAPI_DRS_DestroySession
pub const ID_DRS_DESTROY_SESSION: u32 = 0xDAD9_CFF8;
/// NvAPI_DRS_LoadSettings
pub const ID_DRS_LOAD_SETTINGS: u32 = 0x375D_BD6B;
/// NvAPI_DRS_SaveSettings
pub const ID_DRS_SAVE_SETTINGS: u32 = 0xFCBC_7E14;
/// NvAPI_DRS_GetBaseProfile
pub const ID_DRS_GET_BASE_PROFILE: u32 = 0xDA84_66A0;
/// NvAPI_DRS_SetSetting
pub const ID_DRS_SET_SETTING: u32 = 0x577D_D202;
/// NvAPI_EnumPhysicalGPUs
pub const ID_ENUM_PHYSICAL_GPUS: u32 = 0xE5AC_921F;
/// NvAPI_GPU_GetConnectedDisplayIds
pub const ID_GPU_GET_CONNECTED_DISPLAY_IDS: u32 = 0x0078_DBA2;
/// NvAPI_Disp_ColorControl
pub const ID_DISP_COLOR_CONTROL: u32 = 0x92F9_D80D;

/// Power management mode.
pub const PREFERRED_PSTATE_ID: u32 = 0x1057_EB71;
pub const PREFERRED_PSTATE_PREFER_MAX: u32 = 1;
/// Antialiasing mode.
pub const AA_MODE_SELECTOR_ID: u32 = 0x107E_FC5B;
pub const AA_MODE_SELECTOR_APP_CONTROL: u32 = 0;
/// Anisotropic filtering mode.
pub const ANISO_MODE_SELECTOR_ID: u32 = 0x10D2_BB16;
pub const ANISO_MODE_SELECTOR_APP: u32 = 0;

pub const NVDRS_DWORD_TYPE: u32 = 0;
pub const NVDRS_CURRENT_PROFILE_LOCATION: u32 = 0;
/// The size of a setting value buffer of the driver settings.
pub const NVDRS_VALUE_SIZE: usize = 4100;
pub const NVAPI_MAX_PHYSICAL_GPUS: usize = 64;

pub const NVAPI_OK: i32 = 0;
pub const NVAPI_ERROR: i32 = -1;
pub const NVAPI_LIBRARY_NOT_FOUND: i32 = -2;
pub const NVAPI_NO_IMPLEMENTATION: i32 = -3;
pub const NVAPI_API_NOT_INITIALIZED: i32 = -4;
pub const NVAPI_INVALID_ARGUMENT: i32 = -5;
pub const NVAPI_NVIDIA_DEVICE_NOT_FOUND: i32 = -6;
pub const NVAPI_INCOMPATIBLE_STRUCT_VERSION: i32 = -9;
pub const NVAPI_NOT_SUPPORTED: i32 = -104;
pub const NVAPI_INVALID_USER_PRIVILEGE: i32 = -137;

pub const NV_COLOR_CMD_GET: u8 = 1;
pub const NV_COLOR_CMD_SET: u8 = 2;
pub const NV_COLOR_FORMAT_RGB: u8 = 0;
pub const NV_COLOR_FORMAT_YUV422: u8 = 1;
pub const NV_COLOR_COLORIMETRY_DEFAULT: u8 = 0xFE;
pub const NV_DYNAMIC_RANGE_AUTO: u8 = 0xFF;
pub const NV_BPC_DEFAULT: u32 = 0;
pub const NV_COLOR_SELECTION_POLICY_USER: u32 = 0;
pub const NV_DESKTOP_COLOR_DEPTH_DEFAULT: u32 = 0;

/// The byte sizes of the driver's structures in their C layout.
pub const NV_GPU_DISPLAY_IDS_SIZE: u32 = 16;
pub const NV_COLOR_DATA_SIZE: u32 = 24;
pub const NV_DRS_SETTING_SIZE: u32 = 12320;

/// The version word of a driver structure: its size in the low half, its revision above.
pub open spec fn version_word(size: u32, version: u32) -> u32 {
    size | ((version << 16u32) as u32)
}

/// The version word of a driver structure of `size` bytes at revision `version`.
pub fn nvapi_version(size: u32, version: u32) -> (v: u32)
    ensures
        v == version_word(size, version),
{
    size | (version << 16u32)
}

/// The version word holds the size and the revision, each in its own half.
pub proof fn lemma_version_word_halves(size: u32, version: u32)
    requires
        size < 0x10000,
        version < 0x10000,
    ensures
        version_word(size, version) & 0xFFFF == size,
        version_word(size, version) >> 16u32 == version,
        version_word(size, version) == size + version * 0x10000,
{
    assert((size | ((version << 16u32) as u32)) & 0xFFFF == size) by (bit_vector)
        requires
            size < 0x10000,
    ;
    assert((size | ((version << 16u32) as u32)) >> 16u32 == version) by (bit_vector)
        requires
            size < 0x10000,
            version < 0x10000,
    ;
    assert((size | ((version << 16u32) as u32)) == size + version * 0x10000) by (bit_vector)
        requires
            size < 0x10000,
            version < 0x10000,
    ;
}

/// The text for an NvAPI status.
pub open spec fn status_text(status: i32) -> Seq<char> {
    if status == NVAPI_OK {
        "成功しました。"@
    } else if status == NVAPI_LIBRARY_NOT_FOUND || status == NVAPI_NVIDIA_DEVICE_NOT_FOUND {
        MISSING_DRIVER@
    } else if status == NVAPI_NO_IMPLEMENTATION || status == NVAPI_NOT_SUPPORTED {
        "このドライバーまたはモニターでは未対応です。"@
    } else if status == NVAPI_API_NOT_INITIALIZED {
        "NVAPIが初期化されていません。"@
    } else if status == NVAPI_INVALID_ARGUMENT {
        "引数が不正です。"@
    } else if status == NVAPI_INCOMPATIBLE_STRUCT_VERSION {
        "構造体の版が合いません。"@
    } else if status == NVAPI_INVALID_USER_PRIVILEGE {
        "権限が不足しています。管理者として実行してください。"@
    } else if status == NVAPI_ERROR {
        "処理に失敗しました。"@
    } else {
        "エラーコード "@ + signed_decimal(status as int)
    }
}

/// The text for an NvAPI status.
pub fn status_message(status: i32) -> (text: String)
    ensures
        text@ == status_text(status),
{
    if status == NVAPI_OK {
        String::from_str("成功しました。")
    } else if status == NVAPI_LIBRARY_NOT_FOUND || status == NVAPI_NVIDIA_DEVICE_NOT_FOUND {
        String::from_str(MISSING_DRIVER)
    } else if status == NVAPI_NO_IMPLEMENTATION || status == NVAPI_NOT_SUPPORTED {
        String::from_str("このドライバーまたはモニターでは未対応です。")
    } else if status == NVAPI_API_NOT_INITIALIZED {
        String::from_str("NVAPIが初期化されていません。")
    } else if status == NVAPI_INVALID_ARGUMENT {
        String::from_str("引数が不正です。")
    } else if status == NVAPI_INCOMPATIBLE_STRUCT_VERSION {
        String::from_str("構造体の版が合いません。")
    } else if status == NVAPI_INVALID_USER_PRIVILEGE {
        String::from_str("権限が不足しています。管理者として実行してください。")
    } else if status == NVAPI_ERROR {
        String::from_str("処理に失敗しました。")
    } else {
        let mut text = String::from_str("エラーコード ");
        push_signed_decimal(&mut text, status as i64);
        text
    }
}

/// `OPERATION: text of the status`.
pub open spec fn status_error_text(status: i32) -> Seq<char> {
    OPERATION@ + ": "@ + status_text(status)
}

/// The error for a failed NvAPI status.
pub fn status_error(status: i32) -> (text: String)
    ensures
        text@ == status_error_text(status),
{
    let mut text = String::from_str(OPERATION);
    text.append(": ");
    let message = status_message(status);
    text.append(message.as_str());
    text
}

/// Success exactly for `NVAPI_OK`; the status's error otherwise.
pub fn check(status: i32) -> (r: Result<(), String>)
    ensures
        r is Ok <==> status == NVAPI_OK,
        r matches Err(e) ==> e@ == status_error_text(status),
{
    if status == NVAPI_OK {
        Ok(())
    } else {
        Err(status_error(status))
    }
}

/// The error when the driver library or its entry point is missing.
pub fn missing_driver_error() -> (text: String)
    ensures
        text@ == OPERATION@ + ": "@ + MISSING_DRIVER@,
{
    let mut text = String::from_str(OPERATION);
    text.append(": ");
    text.append(MISSING_DRIVER);
    text
}

/// The error when an NvAPI function cannot be resolved.
pub fn resolve_error(name: &str) -> (text: String)
    ensures
        text@ == OPERATION@ + ": NVAPIの関数を解決できませんでした ("@ + name@ + ")。"@,
{
    let mut text = String::from_str(OPERATION);
    text.append(": NVAPIの関数を解決できませんでした (");
    text.append(name);
    text.append(")。");
    text
}

/// The base profile settings: prefer maximum performance, leave antialiasing and anisotropic
/// filtering to the application.
pub open spec fn drs_setting_values() -> Seq<(u32, u32)> {
    seq![
        (PREFERRED_PSTATE_ID, PREFERRED_PSTATE_PREFER_MAX),
        (AA_MODE_SELECTOR_ID, AA_MODE_SELECTOR_APP_CONTROL),
        (ANISO_MODE_SELECTOR_ID, ANISO_MODE_SELECTOR_APP),
    ]
}

/// The base profile settings, as (setting id, value).
pub fn drs_settings() -> (settings: Vec<(u32, u32)>)
    ensures
        settings@ == drs_setting_values(),
{
    let mut settings: Vec<(u32, u32)> = Vec::new();
    settings.push((PREFERRED_PSTATE_ID, PREFERRED_PSTATE_PREFER_MAX));
    settings.push((AA_MODE_SELECTOR_ID, AA_MODE_SELECTOR_APP_CONTROL));
    settings.push((ANISO_MODE_SELECTOR_ID, ANISO_MODE_SELECTOR_APP));
    assert(settings@ =~= drs_setting_values());
    settings
}

/// The little-endian bytes of a 32-bit value.
pub open spec fn u32_le(value: u32) -> Seq<u8> {
    seq![
        (value % 256) as u8,
        ((value / 256) % 256) as u8,
        ((value / 65536) % 256) as u8,
        (value / 16777216) as u8,
    ]
}

/// Writes `value` little-endian into the first four bytes of `buffer`.
pub fn write_u32(buffer: &mut Vec<u8>, value: u32)
    requires
        old(buffer)@.len() >= 4,
    ensures
        final(buffer)@ == u32_le(value) + old(buffer)@.skip(4),
{
    buffer.set(0, (value % 256) as u8);
    buffer.set(1, ((value / 256) % 256) as u8);
    buffer.set(2, ((value / 65536) % 256) as u8);
    buffer.set(3, (value / 16777216) as u8);
    assert(buffer@ =~= u32_le(value) + old(buffer)@.skip(4));
}

/// A driver setting of DWORD type for the current profile.
pub struct DrsSetting {
    pub version: u32,
    pub setting_id: u32,
    pub setting_type: u32,
    pub setting_location: u32,
    pub predefined: Vec<u8>,
    pub current: Vec<u8>,
}

/// A value buffer holding `value`: its four bytes, then zeros.
pub open spec fn value_buffer(value: u32) -> Seq<u8> {
    u32_le(value) + Seq::new((NVDRS_VALUE_SIZE - 4) as nat, |i: int| 0u8)
}

fn zero_bytes(n: usize) -> (v: Vec<u8>)
    ensures
        v@ == Seq::new(n as nat, |i: int| 0u8),
{
    let mut v: Vec<u8> = Vec::new();
    let mut i: usize = 0;
    while i < n
        invariant
            i <= n,
            v@ == Seq::new(i as nat, |k: int| 0u8),
        decreases n - i,
    {
        v.push(0);
        i = i + 1;
        assert(v@ =~= Seq::new(i as nat, |k: int| 0u8));
    }
    v
}

fn value_bytes(value: u32) -> (v: Vec<u8>)
    ensures
        v@ == value_buffer(value),
{
    let mut v = zero_bytes(NVDRS_VALUE_SIZE);
    write_u32(&mut v, value);
    assert(v@ =~= value_buffer(value));
    v
}

/// The DWORD setting `setting_id` with `value` as predefined and current value.
pub fn dword_setting(setting_id: u32, value: u32) -> (s: DrsSetting)
    ensures
        s.version == version_word(NV_DRS_SETTING_SIZE, 1),
        s.setting_id == setting_id,
        s.setting_type == NVDRS_DWORD_TYPE,
        s.setting_location == NVDRS_CURRENT_PROFILE_LOCATION,
        s.predefined@ == value_buffer(value),
        s.current@ == value_buffer(value),
{
    DrsSetting {
        version: nvapi_version(NV_DRS_SETTING_SIZE, 1),
        setting_id,
        setting_type: NVDRS_DWORD_TYPE,
        setting_location: NVDRS_CURRENT_PROFILE_LOCATION,
        predefined: value_bytes(value),
        current: value_bytes(value),
    }
}

/// The color settings of a display as the driver exchanges them.
#[derive(Clone, Copy, Debug, PartialEq, Eq)]
pub struct ColorData {
    pub version: u32,
    pub size: u16,
    pub cmd: u8,
    pub color_format: u8,
    pub colorimetry: u8,
    pub dynamic_range: u8,
    pub bpc: u32,
    pub color_selection_policy: u32,
    pub depth: u32,
}

/// A request for the current color settings, with default values.
pub open spec fn default_color() -> ColorData {
    ColorData {
        version: version_word(NV_COLOR_DATA_SIZE, 5),
        size: NV_COLOR_DATA_SIZE as u16,
        cmd: NV_COLOR_CMD_GET,
        color_format: NV_COLOR_FORMAT_RGB,
        colorimetry: NV_COLOR_COLORIMETRY_DEFAULT,
        dynamic_range: NV_DYNAMIC_RANGE_AUTO,
        bpc: NV_BPC_DEFAULT,
        color_selection_policy: NV_COLOR_SELECTION_POLICY_USER,
        depth: NV_DESKTOP_COLOR_DEPTH_DEFAULT,
    }
}

/// A request for the current color settings, with default values.
pub fn empty_color_data() -> (c: ColorData)
    ensures
        c == default_color(),
{
    ColorData {
        version: nvapi_version(NV_COLOR_DATA_SIZE, 5),
        size: 24,
        cmd: NV_COLOR_CMD_GET,
        color_format: NV_COLOR_FORMAT_RGB,
        colorimetry: NV_COLOR_COLORIMETRY_DEFAULT,
        dynamic_range: NV_DYNAMIC_RANGE_AUTO,
        bpc: NV_BPC_DEFAULT,
        color_selection_policy: NV_COLOR_SELECTION_POLICY_USER,
        depth: NV_DESKTOP_COLOR_DEPTH_DEFAULT,
    }
}

/// The current color settings when the driver returned them, the defaults otherwise.
pub fn current_or_default_color(status: i32, fetched: ColorData) -> (c: ColorData)
    ensures
        c == (if status == NVAPI_OK { fetched } else { default_color() }),
{
    if status == NVAPI_OK {
        fetched
    } else {
        empty_color_data()
    }
}

/// The current settings turned into a request that sets `color_format` by the user's choice.
pub open spec fn color_set_request(current: ColorData, color_format: u8) -> ColorData {
    ColorData {
        version: version_word(NV_COLOR_DATA_SIZE, 5),
        size: NV_COLOR_DATA_SIZE as u16,
        cmd: NV_COLOR_CMD_SET,
        color_format,
        color_selection_policy: NV_COLOR_SELECTION_POLICY_USER,
        ..current
    }
}

/// The request that sets `color_format` on a display whose settings are `current`.
pub fn color_to_set(current: ColorData, color_format: u8) -> (c: ColorData)
    ensures
        c == color_set_request(current, color_format),
{
    ColorData {
        version: nvapi_version(NV_COLOR_DATA_SIZE, 5),
        size: 24,
        cmd: NV_COLOR_CMD_SET,
        color_format,
        color_selection_policy: NV_COLOR_SELECTION_POLICY_USER,
        ..current
    }
}

/// Whether to ask a GPU for its displays, after it reported how many are connected.
pub fn should_list_displays(status: i32, count: u32) -> (r: bool)
    ensures
        r == (status == NVAPI_OK && count > 0),
{
    status == NVAPI_OK && count > 0
}

/// The display ids a GPU reported: none when the call failed; otherwise the first `count`
/// entries, without zero ids.
pub open spec fn reported_display_ids(status: i32, count: u32, ids: Seq<u32>) -> Seq<u32> {
    if status != NVAPI_OK {
        Seq::empty()
    } else {
        ids.take(if count < ids.len() { count as int } else { ids.len() as int }).filter(|id: u32| id != 0)
    }
}

/// The display ids of one GPU from its answer.
pub fn connected_display_ids(status: i32, count: u32, ids: &Vec<u32>) -> (r: Vec<u32>)
    ensures
        r@ == reported_display_ids(status, count, ids@),
{
    let mut r: Vec<u32> = Vec::new();
    if status != NVAPI_OK {
        return r;
    }
    let n: usize = if (count as usize) < ids.len() { count as usize } else { ids.len() };
    let ghost pred = |id: u32| id != 0;
    let mut i: usize = 0;
    while i < n
        invariant
            n <= ids@.len(),
            i <= n,
            pred == (|id: u32| id != 0),
            r@ == ids@.take(i as int).filter(pred),
        decreases n - i,
    {
        let ghost before = ids@.take(i as int);
        let ghost after = ids@.take(i + 1);
        assert(after.drop_last() == before);
        assert(after.last() == ids@[i as int]);
        proof {
            reveal(Seq::filter);
        }
        if ids[i] != 0 {
            r.push(ids[i]);
        }
        i = i + 1;
    }
    proof {
        assert(ids@.take(if count < ids@.len() { count as int } else { ids@.len() as int }) == ids@.take(n as int));
    }
    r
}

/// The error when no display accepted YCbCr 4:2:2.
pub open spec fn no_yuv_display_text() -> Seq<char> {
    OPERATION@ + ": YCbCr 4:2:2 に切り替えられるモニターがありません。"@
}

/// The outcome of switching `displays` displays to YCbCr 4:2:2, of which `successes`
/// succeeded: success when there was no display or at least one succeeded.
pub fn color_switch_outcome(displays: usize, successes: usize) -> (r: Result<(), String>)
    ensures
        r is Ok <==> (displays == 0 || successes > 0),
        r matches Err(e) ==> e@ == no_yuv_display_text(),
{
    if displays == 0 || successes > 0 {
        Ok(())
    } else {
        let mut text = String::from_str(OPERATION);
        text.append(": YCbCr 4:2:2 に切り替えられるモニターがありません。");
        Err(text)
    }
}

} // verus!
