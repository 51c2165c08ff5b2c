//! Tuning for NDI/OMT and vMix: Ethernet adapter settings, QoS, media throttling, game
//! overlays and the GPU preference of vMix.

use vstd::prelude::*;
use vstd::string::*;
use crate::registry::{
    dword_write, hkcu_dword, hkcu_sz, hklm_dword, sz_write, RegistryDataView, RegistryRoot, RegistryWrite,
    RegistryWriteView,
};
use crate::text::{
    chars_eq_ignore_ascii_case, chars_of, eq_ignore_case, is_brace, lemma_eq_ignore_case_equivalence,
    lemma_leading_braces, lemma_trailing_braces, trim_braces, trim_braces_chars,
};

verus! {

/// The device class key of network adapters.
pub const NIC_CLASS: &'static str = "SYSTEM\\CurrentControlSet\\Control\\Class\\{4d36e972-e325-11ce-bfc1-08002be10318}";
/// The value of an adapter instance key that holds the adapter's id.
pub const NET_CFG_INSTANCE_ID: &'static str = "NetCfgInstanceId";
/// `PnPCapabilities`: the device may not be turned off to save power.
pub const PNP_NO_POWER_MANAGEMENT: u32 = 0x18;
/// Flow control for receiving and sending.
pub const FLOW_CONTROL_RX_TX: u32 = 3;

/// The adapter settings that are set to 0 where an adapter has them.
pub open spec fn disable_keyword_list() -> Seq<Seq<char>> {
    seq![
        "*EEE"@, "EEE"@, "*EEELinkAdvertisement"@, "EEELinkAdvertisement"@,
        "*EnergyEfficientEthernet"@, "EnergyEfficientEthernet"@, "*GreenEthernet"@,
        "GreenEthernet"@, "*InterruptModeration"@, "InterruptModeration"@, "ITR"@,
        "ReduceSpeedOnPowerDown"@, "*ReduceSpeedOnPowerDown"@, "ULPMode"@, "*ULPMode"@,
        "EnablePME"@, "*EnablePME"@, "*PriorityVLANTag"@, "PriorityVLANTag"@,
    ]
}

/// The adapter settings that are set to 0 where an adapter has them.
pub fn disable_keywords() -> (keywords: Vec<&'static str>)
    ensures
        keywords@.map_values(|k: &'static str| k@) == disable_keyword_list(),
{
    let mut keywords: Vec<&'static str> = Vec::new();
    keywords.push("*EEE");
    keywords.push("EEE");
    keywords.push("*EEELinkAdvertisement");
    keywords.push("EEELinkAdvertisement");
    keywords.push("*EnergyEfficientEthernet");
    keywords.push("EnergyEfficientEthernet");
    keywords.push("*GreenEthernet");
    keywords.push("GreenEthernet");
    keywords.push("*InterruptModeration");
    keywords.push("InterruptModeration");
    keywords.push("ITR");
    keywords.push("ReduceSpeedOnPowerDown");
    keywords.push("*ReduceSpeedOnPowerDown");
    keywords.push("ULPMode");
    keywords.push("*ULPMode");
    keywords.push("EnablePME");
    keywords.push("*EnablePME");
    keywords.push("*PriorityVLANTag");
    keywords.push("PriorityVLANTag");
    assert(keywords@.map_values(|k: &'static str| k@) =~= disable_keyword_list());
    keywords
}

/// Two adapter ids name the same adapter: equal without braces, ignoring ASCII case.
pub open spec fn same_adapter_id(left: Seq<char>, right: Seq<char>) -> bool {
    eq_ignore_case(trim_braces(left), trim_braces(right))
}

/// Naming the same adapter is symmetric, and an id names the same adapter as itself.
pub proof fn lemma_same_adapter_id_symmetric(left: Seq<char>, right: Seq<char>)
    ensures
        same_adapter_id(left, left),
        same_adapter_id(left, right) == same_adapter_id(right, left),
{
    lemma_eq_ignore_case_equivalence(trim_braces(left), trim_braces(right), trim_braces(left));
    lemma_eq_ignore_case_equivalence(trim_braces(right), trim_braces(left), trim_braces(right));
}

/// Braces around an id do not change the adapter it names.
pub proof fn lemma_braces_do_not_matter(id: Seq<char>)
    requires
        id.len() > 0,
        !is_brace(id[0]),
        !is_brace(id.last()),
    ensures
        same_adapter_id(seq!['{'] + id + seq!['}'], id),
{
    let braced = seq!['{'] + id + seq!['}'];
    lemma_leading_braces(id, 0);
    assert(id.skip(0) == id);
    lemma_trailing_braces(id, id.len() as int);
    assert(id.take(id.len() as int) == id);
    assert(trim_braces(id) == id);
    assert(braced[1] == id[0]);
    lemma_leading_braces(braced, 1);
    let t = braced.skip(1);
    assert(t =~= id + seq!['}']);
    assert(t[id.len() - 1] == id.last());
    lemma_trailing_braces(t, id.len() as int);
    assert(t.take(id.len() as int) =~= id);
    assert(trim_braces(braced) == id);
    lemma_eq_ignore_case_equivalence(id, id, id);
}

/// Whether two adapter ids name the same adapter, with or without braces.
pub fn ids_match(left: &str, right: &str) -> (r: bool)
    ensures
        r == same_adapter_id(left@, right@),
{
    let l = trim_braces_chars(&chars_of(left));
    let r = trim_braces_chars(&chars_of(right));
    chars_eq_ignore_ascii_case(&l, &r)
}

/// An instance key of the adapter class is named by four decimal digits.
pub open spec fn is_instance_name(name: Seq<char>) -> bool {
    &&& name.len() == 4
    &&& forall|i: int| 0 <= i < name.len() ==> 48 <= (#[trigger] name[i] as u32) && (name[i] as u32) <= 57
}

/// Whether a sub-key of the adapter class is an adapter instance (`0000` to `9999`).
pub fn is_adapter_instance(name: &str) -> (r: bool)
    ensures
        r == is_instance_name(name@),
{
    let chars = chars_of(name);
    if chars.len() != 4 {
        return false;
    }
    let mut i: usize = 0;
    while i < 4
        invariant
            chars@ == name@,
            chars@.len() == 4,
            i <= 4,
            forall|k: int| 0 <= k < i ==> 48 <= (#[trigger] chars@[k] as u32) && (chars@[k] as u32) <= 57,
        decreases 4 - i,
    {
        let u: u32 = chars[i] as u32;
        if u < 48 || u > 57 {
            return false;
        }
        i = i + 1;
    }
    true
}

/// The key of an adapter instance.
pub open spec fn instance_key_of(instance: Seq<char>) -> Seq<char> {
    NIC_CLASS@ + seq!['\\'] + instance
}

/// The key of an adapter instance.
pub fn instance_key(instance: &str) -> (key: String)
    ensures
        key@ == instance_key_of(instance@),
{
    let mut key = String::from_str(NIC_CLASS);
    key.append("\\");
    proof {
        reveal_strlit("\\");
    }
    key.append(instance);
    key
}

/// An adapter instance of the class, as enumerated: its name and its `NetCfgInstanceId`, if it
/// could be read.
pub struct AdapterInstance {
    pub name: String,
    pub net_cfg_id: Option<String>,
}

/// Some adapter id names the same adapter as `net_cfg_id`.
pub open spec fn is_listed_adapter(net_cfg_id: Seq<char>, adapter_ids: Seq<String>) -> bool {
    exists|i: int| 0 <= i < adapter_ids.len() && same_adapter_id(#[trigger] adapter_ids[i]@, net_cfg_id)
}

/// An instance is tuned when it is named like an adapter instance and its id is one of the
/// Ethernet adapters.
pub open spec fn is_tuned_instance(instance: AdapterInstance, adapter_ids: Seq<String>) -> bool {
    &&& is_instance_name(instance.name@)
    &&& instance.net_cfg_id matches Some(id) && is_listed_adapter(id@, adapter_ids)
}

/// Whether the adapter instance is one to tune.
pub fn instance_is_tuned(instance: &AdapterInstance, adapter_ids: &Vec<String>) -> (r: bool)
    ensures
        r == is_tuned_instance(*instance, adapter_ids@),
{
    if !is_adapter_instance(instance.name.as_str()) {
        return false;
    }
    match &instance.net_cfg_id {
        Some(id) => {
            let mut i: usize = 0;
            while i < adapter_ids.len()
                invariant
                    i <= adapter_ids@.len(),
                    is_instance_name(instance.name@),
                    instance.net_cfg_id matches Some(x) && x@ == id@,
                    forall|k: int| 0 <= k < i ==> !same_adapter_id(#[trigger] adapter_ids@[k]@, id@),
                decreases adapter_ids@.len() - i,
            {
                if ids_match(adapter_ids[i].as_str(), id.as_str()) {
                    assert(is_listed_adapter(id@, adapter_ids@));
                    return true;
                }
                i = i + 1;
            }
            false
        },
        None => false,
    }
}

/// An existing numeric value to overwrite; values that do not exist stay absent.
pub struct ExistingNumber {
    pub name: String,
    pub value: u32,
}

/// The settings of one adapter instance: `PnPCapabilities`, then each power saving or
/// moderation setting to 0 and flow control to receive and send, where the adapter has them.
pub struct AdapterTuning {
    pub key: String,
    pub pnp_capabilities: RegistryWrite,
    pub existing: Vec<ExistingNumber>,
}

/// The existing numeric values to overwrite on an adapter.
pub open spec fn tuning_values() -> Seq<(Seq<char>, u32)> {
    disable_keyword_list().map_values(|k: Seq<char>| (k, 0u32)) + seq![
        ("*FlowControl"@, FLOW_CONTROL_RX_TX),
        ("FlowControl"@, FLOW_CONTROL_RX_TX),
    ]
}

/// `t` is the tuning of the adapter instance named `instance`.
pub open spec fn is_tuning_of(t: AdapterTuning, instance: Seq<char>) -> bool {
    &&& t.key@ == instance_key_of(instance)
    &&& t.pnp_capabilities@ == dword_write(
        RegistryRoot::LocalMachine,
        instance_key_of(instance),
        "PnPCapabilities"@,
        PNP_NO_POWER_MANAGEMENT,
    )
    &&& t.existing@.len() == tuning_values().len()
    &&& forall|i: int| 0 <= i < t.existing@.len() ==> (#[trigger] t.existing@[i]).name@ == tuning_values()[i].0
        && t.existing@[i].value == tuning_values()[i].1
}

/// The tuning of the adapter instance `instance`.
pub fn adapter_tuning(instance: &str) -> (t: AdapterTuning)
    ensures
        is_tuning_of(t, instance@),
{
    let key = instance_key(instance);
    let pnp_capabilities = hklm_dword(key.as_str(), "PnPCapabilities", PNP_NO_POWER_MANAGEMENT);
    let keywords = disable_keywords();
    let mut existing: Vec<ExistingNumber> = Vec::new();
    let mut i: usize = 0;
    while i < keywords.len()
        invariant
            i <= keywords@.len(),
            keywords@.map_values(|k: &'static str| k@) == disable_keyword_list(),
            existing@.len() == i,
            forall|j: int| 0 <= j < i ==> (#[trigger] existing@[j]).name@ == tuning_values()[j].0
                && existing@[j].value == tuning_values()[j].1,
        decreases keywords@.len() - i,
    {
        existing.push(ExistingNumber { name: String::from_str(keywords[i]), value: 0 });
        assert(keywords@.map_values(|k: &'static str| k@)[i as int] == keywords@[i as int]@);
        assert(tuning_values()[i as int] == (disable_keyword_list()[i as int], 0u32));
        i = i + 1;
    }
    existing.push(ExistingNumber { name: String::from_str("*FlowControl"), value: FLOW_CONTROL_RX_TX });
    existing.push(ExistingNumber { name: String::from_str("FlowControl"), value: FLOW_CONTROL_RX_TX });
    AdapterTuning { key, pnp_capabilities, existing }
}

/// The tunings of the adapter instances to tune, in enumeration order.
pub fn tune_ethernet_adapters(instances: &Vec<AdapterInstance>, adapter_ids: &Vec<String>) -> (tunings: Vec<AdapterTuning>)
    ensures
        tunings@.len() == instances@.filter(|x: AdapterInstance| is_tuned_instance(x, adapter_ids@)).len(),
        forall|k: int| 0 <= k < tunings@.len() ==> is_tuning_of(
            #[trigger] tunings@[k],
            instances@.filter(|x: AdapterInstance| is_tuned_instance(x, adapter_ids@))[k].name@,
        ),
{
    let ghost pred = |x: AdapterInstance| is_tuned_instance(x, adapter_ids@);
    let mut tunings: Vec<AdapterTuning> = Vec::new();
    let mut i: usize = 0;
    while i < instances.len()
        invariant
            i <= instances@.len(),
            pred == (|x: AdapterInstance| is_tuned_instance(x, adapter_ids@)),
            tunings@.len() == instances@.take(i as int).filter(pred).len(),
            forall|k: int| 0 <= k < tunings@.len() ==> is_tuning_of(
                #[trigger] tunings@[k],
                instances@.take(i as int).filter(pred)[k].name@,
            ),
        decreases instances@.len() - i,
    {
        let ghost before = instances@.take(i as int);
        let ghost after = instances@.take(i + 1);
        assert(after.drop_last() == before);
        assert(after.last() == instances@[i as int]);
        proof {
            reveal(Seq::filter);
        }
        if instance_is_tuned(&instances[i], adapter_ids) {
            tunings.push(adapter_tuning(instances[i].name.as_str()));
            assert(after.filter(pred) == before.filter(pred).push(instances@[i as int]));
            assert forall|k: int| 0 <= k < tunings@.len() implies is_tuning_of(
                #[trigger] tunings@[k],
                after.filter(pred)[k].name@,
            ) by {
                if k < tunings@.len() - 1 {
                    assert(after.filter(pred)[k] == before.filter(pred)[k]);
                }
            }
        } else {
            assert(after.filter(pred) == before.filter(pred));
        }
        i = i + 1;
    }
    assert(instances@.take(instances@.len() as int) == instances@);
    tunings
}

/// No bandwidth reserved by the packet scheduler.
pub open spec fn qos_writes() -> Seq<RegistryWriteView> {
    seq![dword_write(RegistryRoot::LocalMachine, "SOFTWARE\\Policies\\Microsoft\\Windows\\Psched"@, "NonBestEffortLimit"@, 0)]
}

/// No bandwidth reserved by the packet scheduler.
pub fn disable_qos_reservation() -> (writes: Vec<RegistryWrite>)
    ensures
        writes@.map_values(|w: RegistryWrite| w@) == qos_writes(),
{
    let mut writes: Vec<RegistryWrite> = Vec::new();
    writes.push(hklm_dword("SOFTWARE\\Policies\\Microsoft\\Windows\\Psched", "NonBestEffortLimit", 0));
    assert(writes@.map_values(|w: RegistryWrite| w@) =~= qos_writes());
    writes
}

/// The multimedia system profile: no network throttling, no reserved responsiveness.
pub open spec fn media_throttling_writes() -> Seq<RegistryWriteView> {
    seq![
        dword_write(
            RegistryRoot::LocalMachine,
            "SOFTWARE\\Microsoft\\Windows NT\\CurrentVersion\\Multimedia\\SystemProfile"@,
            "NetworkThrottlingIndex"@,
            0xFFFF_FFFF,
        ),
        dword_write(
            RegistryRoot::LocalMachine,
            "SOFTWARE\\Microsoft\\Windows NT\\CurrentVersion\\Multimedia\\SystemProfile"@,
            "SystemResponsiveness"@,
            0,
        ),
    ]
}

/// No network throttling for multimedia and no CPU share reserved for background work.
pub fn disable_media_throttling() -> (writes: Vec<RegistryWrite>)
    ensures
        writes@.map_values(|w: RegistryWrite| w@) == media_throttling_writes(),
{
    let key = "SOFTWARE\\Microsoft\\Windows NT\\CurrentVersion\\Multimedia\\SystemProfile";
    let mut writes: Vec<RegistryWrite> = Vec::new();
    writes.push(hklm_dword(key, "NetworkThrottlingIndex", u32::MAX));
    writes.push(hklm_dword(key, "SystemResponsiveness", 0));
    assert(writes@.map_values(|w: RegistryWrite| w@) =~= media_throttling_writes());
    writes
}

/// Game capture, Game DVR and automatic game mode turned off.
pub open spec fn game_overlay_writes() -> Seq<RegistryWriteView> {
    seq![
        dword_write(RegistryRoot::CurrentUser, "SOFTWARE\\Microsoft\\Windows\\CurrentVersion\\GameDVR"@, "AppCaptureEnabled"@, 0),
        dword_write(RegistryRoot::CurrentUser, "System\\GameConfigStore"@, "GameDVR_Enabled"@, 0),
        dword_write(RegistryRoot::CurrentUser, "Software\\Microsoft\\GameBar"@, "AutoGameModeEnabled"@, 0),
        dword_write(RegistryRoot::LocalMachine, "SOFTWARE\\Policies\\Microsoft\\Windows\\GameDVR"@, "AllowGameDVR"@, 0),
    ]
}

/// Game capture, Game DVR and automatic game mode turned off.
pub fn disable_game_overlays() -> (writes: Vec<RegistryWrite>)
    ensures
        writes@.map_values(|w: RegistryWrite| w@) == game_overlay_writes(),
{
    let mut writes: Vec<RegistryWrite> = Vec::new();
    writes.push(hkcu_dword("SOFTWARE\\Microsoft\\Windows\\CurrentVersion\\GameDVR", "AppCaptureEnabled", 0));
    writes.push(hkcu_dword("System\\GameConfigStore", "GameDVR_Enabled", 0));
    writes.push(hkcu_dword("Software\\Microsoft\\GameBar", "AutoGameModeEnabled", 0));
    writes.push(hklm_dword("SOFTWARE\\Policies\\Microsoft\\Windows\\GameDVR", "AllowGameDVR", 0));
    assert(writes@.map_values(|w: RegistryWrite| w@) =~= game_overlay_writes());
    writes
}

/// The places where vMix may be installed under one program files folder.
pub open spec fn vmix_paths_under(root: Seq<char>) -> Seq<Seq<char>> {
    seq![root + "\\vMix\\vMix64.exe"@, root + "\\vMix\\vMix.exe"@]
}

/// The places where vMix may be installed, for the program files folders that are known.
pub open spec fn vmix_candidates_of(program_files: Option<Seq<char>>, program_files_x86: Option<Seq<char>>) -> Seq<Seq<char>> {
    (match program_files {
        Some(r) => vmix_paths_under(r),
        None => Seq::empty(),
    }) + (match program_files_x86 {
        Some(r) => vmix_paths_under(r),
        None => Seq::empty(),
    })
}

fn push_vmix_paths(paths: &mut Vec<String>, root: &str)
    ensures
        final(paths)@.map_values(|s: String| s@) == old(paths)@.map_values(|s: String| s@) + vmix_paths_under(root@),
{
    let mut a = String::from_str(root);
    a.append("\\vMix\\vMix64.exe");
    let mut b = String::from_str(root);
    b.append("\\vMix\\vMix.exe");
    let ghost before = paths@;
    paths.push(a);
    paths.push(b);
    assert(paths@.map_values(|s: String| s@) =~= before.map_values(|s: String| s@) + vmix_paths_under(root@));
}

/// The places where vMix may be installed.
pub fn vmix_exe_candidates(program_files: Option<String>, program_files_x86: Option<String>) -> (paths: Vec<String>)
    ensures
        paths@.map_values(|s: String| s@) == vmix_candidates_of(
            match program_files { Some(s) => Some(s@), None => None },
            match program_files_x86 { Some(s) => Some(s@), None => None },
        ),
{
    let mut paths: Vec<String> = Vec::new();
    assert(paths@.map_values(|s: String| s@) =~= Seq::<Seq<char>>::empty());
    match &program_files {
        Some(r) => push_vmix_paths(&mut paths, r.as_str()),
        None => {},
    }
    match &program_files_x86 {
        Some(r) => push_vmix_paths(&mut paths, r.as_str()),
        None => {},
    }
    paths
}

/// For an installed vMix at `path`: the high-performance GPU, and no fullscreen optimizations.
pub open spec fn vmix_preference_writes(path: Seq<char>) -> Seq<RegistryWriteView> {
    seq![
        sz_write(RegistryRoot::CurrentUser, "Software\\Microsoft\\DirectX\\UserGpuPreferences"@, path, "GpuPreference=2;"@),
        sz_write(
            RegistryRoot::CurrentUser,
            "Software\\Microsoft\\Windows NT\\CurrentVersion\\AppCompatFlags\\Layers"@,
            path,
            "~ DISABLEDXMAXIMIZEDWINDOWEDMODE"@,
        ),
    ]
}

/// The preference writes for every installed vMix, in order.
pub open spec fn vmix_preferences_of(installed: Seq<String>) -> Seq<RegistryWriteView>
    decreases installed.len(),
{
    if installed.len() == 0 {
        Seq::empty()
    } else {
        vmix_preferences_of(installed.drop_last()) + vmix_preference_writes(installed.last()@)
    }
}

/// The GPU and compatibility preferences for the vMix executables that exist.
pub fn prefer_high_performance_for_vmix(installed: &Vec<String>) -> (writes: Vec<RegistryWrite>)
    ensures
        writes@.map_values(|w: RegistryWrite| w@) == vmix_preferences_of(installed@),
        writes@.len() == 2 * installed@.len(),
        forall|k: int| 0 <= k < installed@.len() ==> prefers_high_performance(
            writes@[2 * k]@,
            writes@[2 * k + 1]@,
            (#[trigger] installed@[k])@,
        ),
{
    proof {
        lemma_vmix_prefers_high_performance_gpu(installed@);
    }
    let mut writes: Vec<RegistryWrite> = Vec::new();
    let mut i: usize = 0;
    while i < installed.len()
        invariant
            i <= installed@.len(),
            writes@.map_values(|w: RegistryWrite| w@) == vmix_preferences_of(installed@.take(i as int)),
        decreases installed@.len() - i,
    {
        let path = installed[i].as_str();
        let ghost before = writes@;
        writes.push(hkcu_sz("Software\\Microsoft\\DirectX\\UserGpuPreferences", path, "GpuPreference=2;"));
        writes.push(hkcu_sz(
            "Software\\Microsoft\\Windows NT\\CurrentVersion\\AppCompatFlags\\Layers",
            path,
            "~ DISABLEDXMAXIMIZEDWINDOWEDMODE",
        ));
        assert(installed@.take(i + 1).drop_last() == installed@.take(i as int));
        assert(writes@.map_values(|w: RegistryWrite| w@) =~= before.map_values(|w: RegistryWrite| w@)
            + vmix_preference_writes(installed@[i as int]@));
        i = i + 1;
    }
    assert(installed@.take(installed@.len() as int) == installed@);
    writes
}

/// One step of a tuning, run in order; the first failure ends the tuning (see
/// `error::sequence_step`).
pub enum OptimizeStep {
    /// Tune every Ethernet adapter instance (see `tune_ethernet_adapters`).
    TuneEthernetAdapters,
    /// Set one registry value.
    Registry(RegistryWrite),
    /// Turn off PCI Express and USB power saving (see `power::disable_bus_power_saving`).
    BusPowerSaving,
    /// Set the preferences of the installed vMix (see `prefer_high_performance_for_vmix`).
    PreferHighPerformanceForVmix,
}

/// The model of a tuning step.
pub enum OptimizeStepView {
    TuneEthernetAdapters,
    Registry(RegistryWriteView),
    BusPowerSaving,
    PreferHighPerformanceForVmix,
}

impl View for OptimizeStep {
    type V = OptimizeStepView;

    open spec fn view(&self) -> OptimizeStepView {
        match self {
            OptimizeStep::TuneEthernetAdapters => OptimizeStepView::TuneEthernetAdapters,
            OptimizeStep::Registry(w) => OptimizeStepView::Registry(w@),
            OptimizeStep::BusPowerSaving => OptimizeStepView::BusPowerSaving,
            OptimizeStep::PreferHighPerformanceForVmix => OptimizeStepView::PreferHighPerformanceForVmix,
        }
    }
}

/// A tuning: its steps, whose failures are reported under `operation`.
pub struct OptimizePlan {
    pub operation: String,
    pub steps: Vec<OptimizeStep>,
}

/// The model of the steps of a plan.
pub open spec fn steps_view(steps: Seq<OptimizeStep>) -> Seq<OptimizeStepView> {
    steps.map_values(|s: OptimizeStep| s@)
}

/// The registry writes as steps.
pub open spec fn registry_steps(writes: Seq<RegistryWriteView>) -> Seq<OptimizeStepView> {
    writes.map_values(|w: RegistryWriteView| OptimizeStepView::Registry(w))
}

fn append_registry_steps(steps: &mut Vec<OptimizeStep>, writes: Vec<RegistryWrite>)
    ensures
        steps_view(final(steps)@) == steps_view(old(steps)@) + registry_steps(writes@.map_values(|w: RegistryWrite| w@)),
{
    let mut rest = writes;
    let ghost all = writes@.map_values(|w: RegistryWrite| w@);
    let ghost start = steps_view(steps@);
    let ghost n = writes@.len();
    assert(n == writes.len());
    let mut consumed: usize = 0;
    while rest.len() > 0
        invariant
            all == writes@.map_values(|w: RegistryWrite| w@),
            n == writes@.len(),
            n <= usize::MAX,
            consumed <= n,
            rest@.len() == n - consumed,
            forall|k: int| 0 <= k < rest@.len() ==> (#[trigger] rest@[k])@ == all[consumed + k],
            steps_view(steps@) == start + registry_steps(all.take(consumed as int)),
        decreases rest@.len(),
    {
        let w = rest.remove(0);
        assert(w@ == all[consumed as int]);
        let ghost before = steps@;
        steps.push(OptimizeStep::Registry(w));
        assert(all.take(consumed + 1) == all.take(consumed as int).push(all[consumed as int]));
        assert(steps_view(steps@) =~= steps_view(before).push(OptimizeStepView::Registry(w@)));
        assert(registry_steps(all.take(consumed + 1)) =~= registry_steps(all.take(consumed as int)).push(OptimizeStepView::Registry(w@)));
        assert forall|k: int| 0 <= k < rest@.len() implies (#[trigger] rest@[k])@ == all[consumed + 1 + k] by {
        }
        consumed = consumed + 1;
    }
    assert(all.take(n as int) == all);
}

/// The NDI/OMT tuning: Ethernet adapters, no QoS reservation, no bus power saving.
pub fn optimize_ndi_settings() -> (plan: OptimizePlan)
    ensures
        plan.operation@ == "NDI/OMT向け最適化に失敗しました"@,
        steps_view(plan.steps@) == seq![OptimizeStepView::TuneEthernetAdapters] + registry_steps(qos_writes())
            + seq![OptimizeStepView::BusPowerSaving],
{
    let mut steps: Vec<OptimizeStep> = Vec::new();
    steps.push(OptimizeStep::TuneEthernetAdapters);
    append_registry_steps(&mut steps, disable_qos_reservation());
    let ghost before = steps@;
    steps.push(OptimizeStep::BusPowerSaving);
    assert(steps_view(steps@) =~= steps_view(before).push(OptimizeStepView::BusPowerSaving));
    assert(steps_view(seq![OptimizeStep::TuneEthernetAdapters]) =~= seq![OptimizeStepView::TuneEthernetAdapters]);
    OptimizePlan { operation: String::from_str("NDI/OMT向け最適化に失敗しました"), steps }
}

/// The vMix tuning: Ethernet adapters, no QoS reservation, no media throttling, no game
/// overlays, then the preferences of the installed vMix.
pub fn optimize_vmix_settings() -> (plan: OptimizePlan)
    ensures
        plan.operation@ == "vMix向け最適化に失敗しました"@,
        steps_view(plan.steps@) == seq![OptimizeStepView::TuneEthernetAdapters] + registry_steps(qos_writes())
            + registry_steps(media_throttling_writes()) + registry_steps(game_overlay_writes())
            + seq![OptimizeStepView::PreferHighPerformanceForVmix],
{
    let mut steps: Vec<OptimizeStep> = Vec::new();
    steps.push(OptimizeStep::TuneEthernetAdapters);
    assert(steps_view(steps@) =~= seq![OptimizeStepView::TuneEthernetAdapters]);
    append_registry_steps(&mut steps, disable_qos_reservation());
    append_registry_steps(&mut steps, disable_media_throttling());
    append_registry_steps(&mut steps, disable_game_overlays());
    let ghost before = steps@;
    steps.push(OptimizeStep::PreferHighPerformanceForVmix);
    assert(steps_view(steps@) =~= steps_view(before).push(OptimizeStepView::PreferHighPerformanceForVmix));
    OptimizePlan { operation: String::from_str("vMix向け最適化に失敗しました"), steps }
}

/// Every adapter tuning turns power saving and interrupt moderation off and flow control on:
/// PnPCapabilities becomes 0x18 (the device may not be turned off), each of the nineteen power
/// saving and moderation keywords is overwritten with 0 where the adapter has it, and both
/// flow control keywords with 3 (receive and send).
pub proof fn lemma_tuning_turns_power_saving_off(t: AdapterTuning, instance: Seq<char>)
    requires
        is_tuning_of(t, instance),
    ensures
        t.pnp_capabilities@.root == RegistryRoot::LocalMachine,
        t.pnp_capabilities@.name == "PnPCapabilities"@,
        t.pnp_capabilities@.data == RegistryDataView::Dword(0x18),
        t.existing@.len() == 21,
        forall|i: int| 0 <= i < 19 ==> (#[trigger] t.existing@[i]).name@ == disable_keyword_list()[i]
            && t.existing@[i].value == 0,
        t.existing@[19].name@ == "*FlowControl"@ && t.existing@[19].value == 3,
        t.existing@[20].name@ == "FlowControl"@ && t.existing@[20].value == 3,
{
    assert(disable_keyword_list().len() == 19);
    assert forall|i: int| 0 <= i < 19 implies (#[trigger] t.existing@[i]).name@ == disable_keyword_list()[i]
        && t.existing@[i].value == 0 by {
        assert(tuning_values()[i] == (disable_keyword_list()[i], 0u32));
    }
    assert(tuning_values()[19] == ("*FlowControl"@, 3u32));
    assert(tuning_values()[20] == ("FlowControl"@, 3u32));
}

/// `gpu` sets the high-performance GPU (`GpuPreference=2;`) for `path`, and `layers` turns off
/// fullscreen optimizations for it, both as current-user string values named by the path.
pub open spec fn prefers_high_performance(gpu: RegistryWriteView, layers: RegistryWriteView, path: Seq<char>) -> bool {
    &&& gpu.root == RegistryRoot::CurrentUser
    &&& gpu.subkey == "Software\\Microsoft\\DirectX\\UserGpuPreferences"@
    &&& gpu.name == path
    &&& gpu.data == RegistryDataView::Sz("GpuPreference=2;"@)
    &&& layers.root == RegistryRoot::CurrentUser
    &&& layers.subkey == "Software\\Microsoft\\Windows NT\\CurrentVersion\\AppCompatFlags\\Layers"@
    &&& layers.name == path
    &&& layers.data == RegistryDataView::Sz("~ DISABLEDXMAXIMIZEDWINDOWEDMODE"@)
}

/// For every installed vMix path, in order, two writes: the high-performance GPU preference
/// and no fullscreen optimizations (see `prefers_high_performance`).
pub proof fn lemma_vmix_prefers_high_performance_gpu(installed: Seq<String>)
    ensures
        vmix_preferences_of(installed).len() == 2 * installed.len(),
        forall|k: int| 0 <= k < installed.len() ==> prefers_high_performance(
            vmix_preferences_of(installed)[2 * k],
            vmix_preferences_of(installed)[2 * k + 1],
            (#[trigger] installed[k])@,
        ),
    decreases installed.len(),
{
    if installed.len() > 0 {
        let prev = installed.drop_last();
        lemma_vmix_prefers_high_performance_gpu(prev);
        let all = vmix_preferences_of(installed);
        let before = vmix_preferences_of(prev);
        let pair = vmix_preference_writes(installed.last()@);
        assert(all == before + pair);
        assert forall|k: int| 0 <= k < installed.len() implies prefers_high_performance(
            all[2 * k],
            all[2 * k + 1],
            (#[trigger] installed[k])@,
        ) by {
            if k < installed.len() - 1 {
                assert(prev[k] == installed[k]);
                assert(all[2 * k] == before[2 * k]);
                assert(all[2 * k + 1] == before[2 * k + 1]);
            } else {
                assert(all[2 * k] == pair[0]);
                assert(all[2 * k + 1] == pair[1]);
            }
        }
    }
}

} // verus!
