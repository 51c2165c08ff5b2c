//! The high-performance power plan and the power settings written into it.

use vstd::prelude::*;
use vstd::string::*;

verus! {

pub const HIGH_PERFORMANCE_SCHEME: u128 = 0x8c5e7fda_e8bf_4a96_9a85_a6e23a8c635c;
pub const SLEEP_SUBGROUP: u128 = 0x238c9fa8_0aad_41ed_83f4_97be242c8f20;
pub const STANDBY_TIMEOUT: u128 = 0x29f6c1db_86da_48c5_9fdb_f2b67b1f44da;
pub const SYSTEM_BUTTON_SUBGROUP: u128 = 0x4f971e89_eebd_4455_a8de_9e59040e7347;
pub const POWERBUTTON_ACTION: u128 = 0x7648efa3_dd9c_4e3e_b566_50f929386280;
pub const VIDEO_SUBGROUP: u128 = 0x7516b95f_f776_4464_8c53_06167f40cc99;
pub const VIDEO_POWERDOWN_TIMEOUT: u128 = 0x3c0bc019_c8a8_4e32_8ff6_4ea39ae5c035;
pub const HIBERNATE_TIMEOUT: u128 = 0x9d7815a6_7ee4_458c_8c55_4ec09ba02559;
pub const PCIEXPRESS_SUBGROUP: u128 = 0x501a4ea5_b76e_4869_973a_07ad1620bb16;
pub const PCIEXPRESS_ASPM: u128 = 0xee12f906_d277_404b_b6da_e5fa1a576df5;
pub const USB_SUBGROUP: u128 = 0x2a737441_1930_4402_8d77_b2bebba308a3;
pub const USB_SELECTIVE_SUSPEND: u128 = 0x48e6b7a6_50f5_4782_a5d4_143dd0d2b298;

pub const ERROR_SUCCESS: u32 = 0;
pub const ERROR_FILE_NOT_FOUND: u32 = 2;
pub const ERROR_MORE_DATA: u32 = 234;
pub const ERROR_NOT_FOUND: u32 = 1168;

/// The text prefix when the plan cannot be made active.
pub const SCHEME_OPERATION: &'static str = "電源プランの変更に失敗しました";
/// The text prefix when the plan cannot be made active again after the writes.
pub const APPLY_OPERATION: &'static str = "電源設定の適用に失敗しました";
/// The text prefix when the high-performance plan does not exist.
pub const MISSING_SCHEME_OPERATION: &'static str = "高パフォーマンス電源プランが見つかりません";

/// A setting that this machine does not have.
pub open spec fn missing_setting(status: u32) -> bool {
    status == ERROR_FILE_NOT_FOUND || status == ERROR_NOT_FOUND
}

/// Whether a write failed only because the machine lacks the setting.
pub fn is_missing_setting(status: u32) -> (r: bool)
    ensures
        r == missing_setting(status),
{
    status == ERROR_FILE_NOT_FOUND || status == ERROR_NOT_FOUND
}

/// Whether reading the plan's name showed that the plan exists (the name may not have fit).
pub fn scheme_exists(status: u32) -> (r: bool)
    ensures
        r == (status == ERROR_SUCCESS || status == ERROR_MORE_DATA),
{
    status == ERROR_SUCCESS || status == ERROR_MORE_DATA
}

/// The status to report after writing a value for mains (`ac`) and battery (`dc`) power: the
/// first that failed for another reason than a missing setting; for a required setting, the
/// mains status whenever it is not success.
pub open spec fn write_failure(ac: u32, dc: u32, required: bool) -> Option<u32> {
    if ac != ERROR_SUCCESS && !missing_setting(ac) {
        Some(ac)
    } else if dc != ERROR_SUCCESS && !missing_setting(dc) {
        Some(dc)
    } else if required && ac != ERROR_SUCCESS {
        Some(ac)
    } else {
        None
    }
}

/// A setting this machine lacks never fails a write that is not required, and a failure is
/// always a status other than success.
pub proof fn lemma_missing_settings_are_skipped(ac: u32, dc: u32, required: bool)
    ensures
        (ac == ERROR_SUCCESS || missing_setting(ac)) && (dc == ERROR_SUCCESS || missing_setting(dc)) && !required
            ==> write_failure(ac, dc, required) is None,
        write_failure(ac, dc, required) matches Some(status) ==> status != ERROR_SUCCESS && (status == ac || status == dc),
        required && ac == ERROR_SUCCESS && (dc == ERROR_SUCCESS || missing_setting(dc)) ==> write_failure(ac, dc, required) is None,
{
}

/// The failure of a power value write, if it is one.
pub fn value_write_failure(ac: u32, dc: u32, required: bool) -> (r: Option<u32>)
    ensures
        r == write_failure(ac, dc, required),
{
    if ac != ERROR_SUCCESS && !is_missing_setting(ac) {
        return Some(ac);
    }
    if dc != ERROR_SUCCESS && !is_missing_setting(dc) {
        return Some(dc);
    }
    if required && ac != ERROR_SUCCESS {
        return Some(ac);
    }
    None
}

/// One value written for mains and battery power into the high-performance plan.
pub struct PowerWrite {
    pub subgroup: u128,
    pub setting: u128,
    pub value: u32,
    pub operation: String,
    pub required: bool,
}

/// The model of a power value write.
pub struct PowerWriteView {
    pub subgroup: u128,
    pub setting: u128,
    pub value: u32,
    pub operation: Seq<char>,
    pub required: bool,
}

impl View for PowerWrite {
    type V = PowerWriteView;

    open spec fn view(&self) -> PowerWriteView {
        PowerWriteView {
            subgroup: self.subgroup,
            setting: self.setting,
            value: self.value,
            operation: self.operation@,
            required: self.required,
        }
    }
}

/// The model of a list of power value writes.
pub open spec fn power_writes_view(writes: Seq<PowerWrite>) -> Seq<PowerWriteView> {
    writes.map_values(|w: PowerWrite| w@)
}

fn power_write(subgroup: u128, setting: u128, value: u32, operation: &str, required: bool) -> (w: PowerWrite)
    ensures
        w@ == (PowerWriteView { subgroup, setting, value, operation: operation@, required }),
{
    PowerWrite { subgroup, setting, value, operation: String::from_str(operation), required }
}

/// Never sleep, hibernate or turn the display off, and let the power button do nothing; only
/// the sleep timeout is required.
pub open spec fn power_setting_writes() -> Seq<PowerWriteView> {
    seq![
        PowerWriteView { subgroup: SLEEP_SUBGROUP, setting: STANDBY_TIMEOUT, value: 0, operation: "スリープ設定の変更に失敗しました"@, required: true },
        PowerWriteView { subgroup: SLEEP_SUBGROUP, setting: HIBERNATE_TIMEOUT, value: 0, operation: "休止設定の変更に失敗しました"@, required: false },
        PowerWriteView { subgroup: VIDEO_SUBGROUP, setting: VIDEO_POWERDOWN_TIMEOUT, value: 0, operation: "自動電源オフ設定の変更に失敗しました"@, required: false },
        PowerWriteView { subgroup: SYSTEM_BUTTON_SUBGROUP, setting: POWERBUTTON_ACTION, value: 0, operation: "電源ボタン設定の変更に失敗しました"@, required: false },
    ]
}

/// The power settings: check that the high-performance plan exists, make it active, write
/// these values into it in order, stopping at the first failure (see `error::sequence_step`),
/// and make it active again to apply them.
pub struct PowerPlan {
    pub scheme: u128,
    pub writes: Vec<PowerWrite>,
}

/// The power settings of a presentation machine.
pub fn change_power_settings() -> (plan: PowerPlan)
    ensures
        plan.scheme == HIGH_PERFORMANCE_SCHEME,
        power_writes_view(plan.writes@) == power_setting_writes(),
        plan.writes@.len() == 4,
        forall|i: int| 0 <= i < plan.writes@.len() ==> (#[trigger] plan.writes@[i]).value == 0,
{
    let mut writes: Vec<PowerWrite> = Vec::new();
    writes.push(power_write(SLEEP_SUBGROUP, STANDBY_TIMEOUT, 0, "スリープ設定の変更に失敗しました", true));
    writes.push(power_write(SLEEP_SUBGROUP, HIBERNATE_TIMEOUT, 0, "休止設定の変更に失敗しました", false));
    writes.push(power_write(VIDEO_SUBGROUP, VIDEO_POWERDOWN_TIMEOUT, 0, "自動電源オフ設定の変更に失敗しました", false));
    writes.push(power_write(SYSTEM_BUTTON_SUBGROUP, POWERBUTTON_ACTION, 0, "電源ボタン設定の変更に失敗しました", false));
    assert(power_writes_view(writes@) =~= power_setting_writes());
    PowerPlan { scheme: HIGH_PERFORMANCE_SCHEME, writes }
}

/// No link state power management for PCI Express and no selective suspend for USB.
pub open spec fn bus_power_writes() -> Seq<PowerWriteView> {
    seq![
        PowerWriteView { subgroup: PCIEXPRESS_SUBGROUP, setting: PCIEXPRESS_ASPM, value: 0, operation: "バスの省電力設定の変更に失敗しました"@, required: false },
        PowerWriteView { subgroup: USB_SUBGROUP, setting: USB_SELECTIVE_SUSPEND, value: 0, operation: "USBの省電力設定の変更に失敗しました"@, required: false },
    ]
}

/// No power saving on the PCI Express and USB buses.
pub fn disable_bus_power_saving() -> (writes: Vec<PowerWrite>)
    ensures
        power_writes_view(writes@) == bus_power_writes(),
        writes@.len() == 2,
        forall|i: int| 0 <= i < writes@.len() ==> (#[trigger] writes@[i]).value == 0,
{
    let mut writes: Vec<PowerWrite> = Vec::new();
    writes.push(power_write(PCIEXPRESS_SUBGROUP, PCIEXPRESS_ASPM, 0, "バスの省電力設定の変更に失敗しました", false));
    writes.push(power_write(USB_SUBGROUP, USB_SELECTIVE_SUSPEND, 0, "USBの省電力設定の変更に失敗しました", false));
    assert(power_writes_view(writes@) =~= bus_power_writes());
    writes
}

/// The presentation power settings turn everything off: the plan writes four values, each 0
/// (sleep, hibernation and display timeouts never, the power button does nothing), the sleep
/// timeout first and required; the bus settings write two values, each 0 (no link power
/// management, no selective suspend).
pub proof fn lemma_power_settings_turn_everything_off()
    ensures
        power_setting_writes().len() == 4,
        forall|i: int| 0 <= i < 4 ==> (#[trigger] power_setting_writes()[i]).value == 0,
        power_setting_writes()[0].subgroup == 0x238c9fa8_0aad_41ed_83f4_97be242c8f20u128,
        power_setting_writes()[0].setting == 0x29f6c1db_86da_48c5_9fdb_f2b67b1f44dau128,
        power_setting_writes()[0].required,
        forall|i: int| 1 <= i < 4 ==> !(#[trigger] power_setting_writes()[i]).required,
        bus_power_writes().len() == 2,
        forall|i: int| 0 <= i < 2 ==> (#[trigger] bus_power_writes()[i]).value == 0,
{
}

} // verus!
