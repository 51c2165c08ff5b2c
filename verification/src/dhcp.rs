//! Network adapters as Windows lists them, and the steps that switch an adapter to DHCP.

use vstd::prelude::*;
use vstd::string::*;
use crate::registry::{dword_write, hklm_dword, RegistryRoot, RegistryWrite};
use crate::text::{
    chars_eq_ignore_ascii_case, chars_of, encode_utf16, eq_ignore_case, string_of, trim_braces,
    trim_braces_chars, utf16_encode,
};

verus! {


/// The error text prefix of DHCP changes.
pub const OPERATION: &'static str = "DHCP設定の変更に失敗しました";

pub const IF_TYPE_ETHERNET_CSMACD: u32 = 6;
pub const IF_TYPE_SOFTWARE_LOOPBACK: u32 = 24;
/// The adapter flag that says DHCP is enabled.
pub const DHCP_ENABLED_FLAG: u32 = 4;

/// A network adapter as shown to the user.
#[derive(Debug, Clone, PartialEq, Eq)]
pub struct NetworkAdapterInfo {
    pub id: String,
    pub name: String,
    pub description: String,
    pub dhcp_enabled: bool,
    pub connected: bool,
}

/// The model of an adapter as shown to the user.
pub struct NetworkAdapterInfoView {
    pub id: Seq<char>,
    pub name: Seq<char>,
    pub description: Seq<char>,
    pub dhcp_enabled: bool,
    pub connected: bool,
}

impl View for NetworkAdapterInfo {
    type V = NetworkAdapterInfoView;

    open spec fn view(&self) -> NetworkAdapterInfoView {
        NetworkAdapterInfoView {
            id: self.id@,
            name: self.name@,
            description: self.description@,
            dhcp_enabled: self.dhcp_enabled,
            connected: self.connected,
        }
    }
}

/// One entry of the adapter list that Windows reports, with its texts already decoded
/// (empty where they could not be).
pub struct RawAdapter {
    pub if_type: u32,
    pub id: String,
    pub name: String,
    pub description: String,
    pub flags: u32,
    pub oper_status_up: bool,
    pub if_index: u32,
}

/// An adapter that can be configured: what the user sees and its interface index.
pub struct AdapterRecord {
    pub info: NetworkAdapterInfo,
    pub if_index: u32,
}

/// The adapter that a raw entry gives, if any: loopback adapters and entries without an id or a
/// name are left out.
pub open spec fn adapter_of(raw: RawAdapter) -> Option<(NetworkAdapterInfoView, u32)> {
    if raw.if_type == IF_TYPE_SOFTWARE_LOOPBACK || raw.id@.len() == 0 || raw.name@.len() == 0 {
        None
    } else {
        Some((
            NetworkAdapterInfoView {
                id: raw.id@,
                name: raw.name@,
                description: raw.description@,
                dhcp_enabled: raw.flags & DHCP_ENABLED_FLAG != 0,
                connected: raw.oper_status_up,
            },
            raw.if_index,
        ))
    }
}

/// The adapters of a raw list, in order.
pub open spec fn adapters_of(raw: Seq<RawAdapter>) -> Seq<(NetworkAdapterInfoView, u32)>
    decreases raw.len(),
{
    if raw.len() == 0 {
        Seq::empty()
    } else {
        match adapter_of(raw.last()) {
            Some(a) => adapters_of(raw.drop_last()).push(a),
            None => adapters_of(raw.drop_last()),
        }
    }
}

/// The model of a list of adapter records.
pub open spec fn records_view(records: Seq<AdapterRecord>) -> Seq<(NetworkAdapterInfoView, u32)> {
    records.map_values(|a: AdapterRecord| (a.info@, a.if_index))
}

fn copy_string(s: &String) -> (r: String)
    ensures
        r@ == s@,
{
    s.clone()
}

fn copy_info(info: &NetworkAdapterInfo) -> (r: NetworkAdapterInfo)
    ensures
        r@ == info@,
{
    NetworkAdapterInfo {
        id: copy_string(&info.id),
        name: copy_string(&info.name),
        description: copy_string(&info.description),
        dhcp_enabled: info.dhcp_enabled,
        connected: info.connected,
    }
}

/// The configurable adapters of the list that Windows reported.
pub fn collect_adapters(raw: &Vec<RawAdapter>) -> (records: Vec<AdapterRecord>)
    ensures
        records_view(records@) == adapters_of(raw@),
        records@.len() == raw@.filter(|a: RawAdapter| a.if_type != 24 && a.id@.len() > 0 && a.name@.len() > 0).len(),
        forall|k: int| 0 <= k < records@.len() ==> {
            let e = raw@.filter(|a: RawAdapter| a.if_type != 24 && a.id@.len() > 0 && a.name@.len() > 0)[k];
            let r = #[trigger] records@[k];
            &&& r.info.id@ == e.id@
            &&& r.info.name@ == e.name@
            &&& r.info.description@ == e.description@
            &&& r.info.dhcp_enabled == (e.flags & 4 != 0)
            &&& r.info.connected == e.oper_status_up
            &&& r.if_index == e.if_index
        },
{
    proof {
        lemma_adapters_keep_reported_fields(raw@);
    }
    let mut records: Vec<AdapterRecord> = Vec::new();
    let mut i: usize = 0;
    while i < raw.len()
        invariant
            i <= raw@.len(),
            records_view(records@) == adapters_of(raw@.take(i as int)),
        decreases raw@.len() - i,
    {
        let r = &raw[i];
        let ghost before = records@;
        assert(raw@.take(i + 1).drop_last() == raw@.take(i as int));
        assert(raw@.take(i + 1).last() == raw@[i as int]);
        if r.if_type != IF_TYPE_SOFTWARE_LOOPBACK && r.id.as_str().unicode_len() > 0
            && r.name.as_str().unicode_len() > 0 {
            let info = NetworkAdapterInfo {
                id: copy_string(&r.id),
                name: copy_string(&r.name),
                description: copy_string(&r.description),
                dhcp_enabled: r.flags & DHCP_ENABLED_FLAG != 0,
                connected: r.oper_status_up,
            };
            records.push(AdapterRecord { info, if_index: r.if_index });
            assert(records_view(records@) =~= records_view(before).push((records@.last().info@, r.if_index)));
        } else {
            assert(records_view(records@) == records_view(before));
        }
        i = i + 1;
    }
    assert(raw@.take(raw@.len() as int) == raw@);
    proof {
        let keep = |a: RawAdapter| a.if_type != 24 && a.id@.len() > 0 && a.name@.len() > 0;
        assert forall|k: int| 0 <= k < records@.len() implies {
            let e = raw@.filter(keep)[k];
            let r = #[trigger] records@[k];
            &&& r.info.id@ == e.id@
            &&& r.info.name@ == e.name@
            &&& r.info.description@ == e.description@
            &&& r.info.dhcp_enabled == (e.flags & 4 != 0)
            &&& r.info.connected == e.oper_status_up
            &&& r.if_index == e.if_index
        } by {
            assert(records_view(records@)[k] == (records@[k].info@, records@[k].if_index));
            let (info, if_index) = adapters_of(raw@)[k];
            assert(info == records@[k].info@);
        }
    }
    records
}

/// The ids of the Ethernet adapters of the list that Windows reported, in order.
pub open spec fn ethernet_ids_of(raw: Seq<RawAdapter>) -> Seq<Seq<char>> {
    raw.filter(|a: RawAdapter| a.if_type == IF_TYPE_ETHERNET_CSMACD && a.id@.len() > 0).map_values(
        |a: RawAdapter| a.id@,
    )
}

/// The ids of the Ethernet adapters that Windows reported.
pub fn ethernet_adapter_ids(raw: &Vec<RawAdapter>) -> (ids: Vec<String>)
    ensures
        ids@.map_values(|s: String| s@) == ethernet_ids_of(raw@),
{
    let ghost pred = |a: RawAdapter| a.if_type == IF_TYPE_ETHERNET_CSMACD && a.id@.len() > 0;
    let mut ids: Vec<String> = Vec::new();
    let mut i: usize = 0;
    while i < raw.len()
        invariant
            i <= raw@.len(),
            pred == (|a: RawAdapter| a.if_type == IF_TYPE_ETHERNET_CSMACD && a.id@.len() > 0),
            ids@.map_values(|s: String| s@) == raw@.take(i as int).filter(pred).map_values(|a: RawAdapter| a.id@),
        decreases raw@.len() - i,
    {
        let ghost before = raw@.take(i as int);
        let ghost after = raw@.take(i + 1);
        let ghost old_ids = ids@;
        assert(after.drop_last() == before);
        assert(after.last() == raw@[i as int]);
        proof {
            reveal(Seq::filter);
        }
        if raw[i].if_type == IF_TYPE_ETHERNET_CSMACD && raw[i].id.as_str().unicode_len() > 0 {
            ids.push(copy_string(&raw[i].id));
            assert(after.filter(pred) == before.filter(pred).push(raw@[i as int]));
            assert(ids@.map_values(|s: String| s@) =~= old_ids.map_values(|s: String| s@).push(raw@[i as int].id@));
        } else {
            assert(after.filter(pred) == before.filter(pred));
        }
        i = i + 1;
    }
    assert(raw@.take(raw@.len() as int) == raw@);
    ids
}

/// The model of a list of adapters as shown to the user.
pub open spec fn infos_view(infos: Seq<NetworkAdapterInfo>) -> Seq<NetworkAdapterInfoView> {
    infos.map_values(|a: NetworkAdapterInfo| a@)
}

/// What the user sees of each record.
pub open spec fn record_infos(records: Seq<AdapterRecord>) -> Seq<NetworkAdapterInfoView> {
    records.map_values(|a: AdapterRecord| a.info@)
}

/// The adapters as shown to the user.
pub fn list_network_adapters(adapters: &Vec<AdapterRecord>) -> (infos: Vec<NetworkAdapterInfo>)
    ensures
        infos_view(infos@) == record_infos(adapters@),
        infos@.len() == adapters@.len(),
        forall|k: int| 0 <= k < infos@.len() ==> {
            let (shown, record) = (#[trigger] infos@[k], adapters@[k].info);
            &&& shown.id@ == record.id@
            &&& shown.name@ == record.name@
            &&& shown.description@ == record.description@
            &&& shown.dhcp_enabled == record.dhcp_enabled
            &&& shown.connected == record.connected
        },
{
    let mut infos: Vec<NetworkAdapterInfo> = Vec::new();
    let mut i: usize = 0;
    while i < adapters.len()
        invariant
            i <= adapters@.len(),
            infos@.len() == i,
            infos_view(infos@) == record_infos(adapters@.take(i as int)),
        decreases adapters@.len() - i,
    {
        let ghost old_infos = infos@;
        infos.push(copy_info(&adapters[i].info));
        i = i + 1;
        assert forall|k: int| 0 <= k < i implies #[trigger] infos_view(infos@)[k]
            == record_infos(adapters@.take(i as int))[k] by {
            if k < i - 1 {
                assert(infos@[k] == old_infos[k]);
                assert(infos_view(old_infos)[k]
                    == record_infos(adapters@.take(i - 1))[k]);
            }
        }
        assert(infos_view(infos@) =~= record_infos(adapters@.take(i as int)));
    }
    assert(adapters@.take(adapters@.len() as int) == adapters@);
    proof {
        assert forall|k: int| 0 <= k < infos@.len() implies infos@[k]@ == adapters@[k].info@ by {
            assert(infos_view(infos@)[k] == infos@[k]@);
            assert(record_infos(adapters@)[k] == adapters@[k].info@);
        }
    }
    infos
}

/// The TCP/IP settings key of an interface.
pub open spec fn interfaces_key() -> Seq<char> {
    "SYSTEM\\CurrentControlSet\\Services\\Tcpip\\Parameters\\Interfaces\\"@
}

/// The settings key of the adapter `id`: the id as it is when it starts with a brace, without
/// its braces otherwise.
pub open spec fn interface_key_of(id: Seq<char>) -> Seq<char> {
    if id.len() > 0 && id[0] == '{' {
        interfaces_key() + id
    } else {
        interfaces_key() + trim_braces(id)
    }
}

/// The settings key of the adapter `id`.
pub fn interface_key(id: &str) -> (key: String)
    ensures
        key@ == interface_key_of(id@),
{
    let chars = chars_of(id);
    let mut key = String::from_str("SYSTEM\\CurrentControlSet\\Services\\Tcpip\\Parameters\\Interfaces\\");
    if chars.len() > 0 && chars[0] == '{' {
        key.append(id);
    } else {
        let trimmed = trim_braces_chars(&chars);
        let t = string_of(&trimmed);
        key.append(t.as_str());
    }
    key
}

/// The length of the name field of an interface index map.
pub const INDEX_MAP_NAME_LEN: usize = 128;

/// The name field of an interface index map: as many UTF-16 units of the id as fit before a
/// terminating zero, then zeros.
pub open spec fn index_map_name_of(id: Seq<char>) -> Seq<u16> {
    let units = utf16_encode(id);
    let n = if units.len() < 127 { units.len() } else { 127 };
    units.take(n as int) + Seq::new((128 - n) as nat, |k: int| 0u16)
}

/// The name field of the interface index map of the adapter `id`.
pub fn index_map_name(id: &str) -> (name: Vec<u16>)
    ensures
        name@ == index_map_name_of(id@),
        name@.len() == INDEX_MAP_NAME_LEN,
{
    let units = encode_utf16(id);
    let copy_len: usize = if units.len() < 127 { units.len() } else { 127 };
    let mut name: Vec<u16> = Vec::new();
    let mut i: usize = 0;
    while i < INDEX_MAP_NAME_LEN
        invariant
            copy_len <= 127,
            copy_len <= units@.len(),
            i <= INDEX_MAP_NAME_LEN,
            name@.len() == i,
            forall|k: int| 0 <= k < i ==> #[trigger] name@[k] == (if k < copy_len { units@[k] } else { 0u16 }),
        decreases INDEX_MAP_NAME_LEN - i,
    {
        if i < copy_len {
            name.push(units[i]);
        } else {
            name.push(0);
        }
        i = i + 1;
    }
    assert(name@ =~= index_map_name_of(id@));
    name
}

/// The adapter name handed to the DHCP service: the id in UTF-16 with a terminating zero.
pub fn adapter_name_wide(id: &str) -> (name: Vec<u16>)
    ensures
        name@ == utf16_encode(id@).push(0u16),
{
    let mut name = encode_utf16(id);
    name.push(0);
    name
}

/// Switching one adapter to DHCP: in the settings key, set `EnableDHCP` to 1 and remove
/// `IPAddress`, `SubnetMask` and `DefaultGateway`; notify the DHCP service of the adapter; renew
/// its address through the interface index map.
pub struct DhcpPlan {
    pub registry_key: String,
    pub enable_dhcp: RegistryWrite,
    pub remove_values: Vec<String>,
    pub adapter_name: Vec<u16>,
    pub if_index: u32,
    pub index_map_name: Vec<u16>,
}

/// The values removed from an adapter's settings key.
pub open spec fn static_address_values() -> Seq<Seq<char>> {
    seq!["IPAddress"@, "SubnetMask"@, "DefaultGateway"@]
}

/// The plan for an adapter with the given id and interface index.
pub open spec fn dhcp_plan_matches(plan: DhcpPlan, id: Seq<char>, if_index: u32) -> bool {
    &&& plan.registry_key@ == interface_key_of(id)
    &&& plan.enable_dhcp@ == dword_write(RegistryRoot::LocalMachine, interface_key_of(id), "EnableDHCP"@, 1)
    &&& plan.remove_values@.map_values(|v: String| v@) == static_address_values()
    &&& plan.adapter_name@ == utf16_encode(id).push(0u16)
    &&& plan.if_index == if_index
    &&& plan.index_map_name@ == index_map_name_of(id)
}

/// The plan that switches `adapter` to DHCP.
pub fn dhcp_plan(adapter: &AdapterRecord) -> (plan: DhcpPlan)
    ensures
        dhcp_plan_matches(plan, adapter.info.id@, adapter.if_index),
{
    let id = adapter.info.id.as_str();
    let registry_key = interface_key(id);
    let enable_dhcp = hklm_dword(registry_key.as_str(), "EnableDHCP", 1);
    let mut remove_values: Vec<String> = Vec::new();
    remove_values.push(String::from_str("IPAddress"));
    remove_values.push(String::from_str("SubnetMask"));
    remove_values.push(String::from_str("DefaultGateway"));
    proof {
        reveal_strlit("IPAddress");
        reveal_strlit("SubnetMask");
        reveal_strlit("DefaultGateway");
    }
    assert(remove_values@.map_values(|v: String| v@) =~= static_address_values());
    DhcpPlan {
        registry_key,
        enable_dhcp,
        remove_values,
        adapter_name: adapter_name_wide(id),
        if_index: adapter.if_index,
        index_map_name: index_map_name(id),
    }
}

/// One step of switching an adapter to DHCP.
pub enum DhcpStep {
    /// Set a registry value.
    SetValue(RegistryWrite),
    /// Remove the value `name` under `key` of the local machine's hive; a value that is not
    /// there counts as removed.
    DeleteValue { key: String, name: String },
    /// Tell the DHCP service that the adapter with this zero-terminated name changed.
    NotifyConfigChange(Vec<u16>),
    /// Renew the address of the adapter with this interface index and index map name.
    RenewAddress { if_index: u32, name: Vec<u16> },
}

/// `step` removes the value `name` under `key`.
pub open spec fn is_delete_step(step: DhcpStep, key: Seq<char>, name: Seq<char>) -> bool {
    match step {
        DhcpStep::DeleteValue { key: k, name: n } => k@ == key && n@ == name,
        _ => false,
    }
}

/// The steps of a plan, carried out in this order and stopping at the first failure (see
/// `error::sequence_step`): set `EnableDHCP`, remove each static address value, notify the
/// DHCP service, renew the address.
pub fn dhcp_steps(plan: DhcpPlan) -> (steps: Vec<DhcpStep>)
    ensures
        steps@.len() == plan.remove_values@.len() + 3,
        steps@[0] matches DhcpStep::SetValue(w) && w@ == plan.enable_dhcp@,
        forall|i: int| 0 <= i < plan.remove_values@.len() ==> is_delete_step(
            #[trigger] steps@[i + 1],
            plan.registry_key@,
            plan.remove_values@[i]@,
        ),
        steps@[plan.remove_values@.len() + 1int] matches DhcpStep::NotifyConfigChange(n) && n@ == plan.adapter_name@,
        steps@[plan.remove_values@.len() + 2int] matches DhcpStep::RenewAddress { if_index, name }
            && if_index == plan.if_index && name@ == plan.index_map_name@,
{
    let ghost old_plan = plan;
    let DhcpPlan { registry_key, enable_dhcp, remove_values, adapter_name, if_index, index_map_name } = plan;
    let mut steps: Vec<DhcpStep> = Vec::new();
    steps.push(DhcpStep::SetValue(enable_dhcp));
    let mut i: usize = 0;
    while i < remove_values.len()
        invariant
            i <= remove_values@.len(),
            remove_values@ == old_plan.remove_values@,
            registry_key@ == old_plan.registry_key@,
            steps@.len() == i + 1,
            steps@[0] matches DhcpStep::SetValue(w) && w@ == old_plan.enable_dhcp@,
            forall|k: int| 0 <= k < i ==> is_delete_step(#[trigger] steps@[k + 1], old_plan.registry_key@, remove_values@[k]@),
        decreases remove_values@.len() - i,
    {
        let key = copy_string(&registry_key);
        let name = copy_string(&remove_values[i]);
        let ghost before = steps@;
        steps.push(DhcpStep::DeleteValue { key, name });
        proof {
            assert(steps@[0] == before[0]);
            assert(is_delete_step(steps@[i + 1], old_plan.registry_key@, remove_values@[i as int]@));
            assert forall|k: int| 0 <= k < i + 1 implies is_delete_step(
                #[trigger] steps@[k + 1],
                old_plan.registry_key@,
                remove_values@[k]@,
            ) by {
                if k < i {
                    assert(steps@[k + 1] == before[k + 1]);
                }
            }
        }
        i = i + 1;
    }
    let ghost middle = steps@;
    steps.push(DhcpStep::NotifyConfigChange(adapter_name));
    steps.push(DhcpStep::RenewAddress { if_index, name: index_map_name });
    proof {
        assert(steps@[0] == middle[0]);
        assert forall|k: int| 0 <= k < old_plan.remove_values@.len() implies is_delete_step(
            #[trigger] steps@[k + 1],
            old_plan.registry_key@,
            old_plan.remove_values@[k]@,
        ) by {
            assert(steps@[k + 1] == middle[k + 1]);
            assert(remove_values@[k] == old_plan.remove_values@[k]);
        }
    }
    steps
}

/// The first adapter whose id equals `id`, ignoring ASCII case.
pub open spec fn first_adapter_with_id(adapters: Seq<AdapterRecord>, id: Seq<char>, i: int) -> bool {
    &&& 0 <= i < adapters.len()
    &&& eq_ignore_case(adapters[i].info.id@, id)
    &&& forall|k: int| 0 <= k < i ==> !eq_ignore_case(#[trigger] adapters[k].info.id@, id)
}

/// The text when no adapter has the requested id.
pub open spec fn adapter_not_found_text() -> Seq<char> {
    OPERATION@ + ": 指定したネットワークアダプターが見つかりません。"@
}

/// The plan that switches the adapter `adapter_id` to DHCP; an error when no adapter has that id.
pub fn enable_dhcp(adapters: &Vec<AdapterRecord>, adapter_id: &str) -> (r: Result<DhcpPlan, String>)
    ensures
        match r {
            Ok(plan) => exists|i: int| first_adapter_with_id(adapters@, adapter_id@, i)
                && dhcp_plan_matches(plan, adapters@[i].info.id@, adapters@[i].if_index),
            Err(e) => e@ == adapter_not_found_text()
                && forall|k: int| 0 <= k < adapters@.len() ==> !eq_ignore_case(#[trigger] adapters@[k].info.id@, adapter_id@),
        },
{
    let wanted = chars_of(adapter_id);
    let mut i: usize = 0;
    while i < adapters.len()
        invariant
            i <= adapters@.len(),
            wanted@ == adapter_id@,
            forall|k: int| 0 <= k < i ==> !eq_ignore_case(#[trigger] adapters@[k].info.id@, adapter_id@),
        decreases adapters@.len() - i,
    {
        let candidate = chars_of(adapters[i].info.id.as_str());
        if chars_eq_ignore_ascii_case(&candidate, &wanted) {
            let plan = dhcp_plan(&adapters[i]);
            assert(first_adapter_with_id(adapters@, adapter_id@, i as int));
            return Ok(plan);
        }
        i = i + 1;
    }
    let mut e = String::from_str("DHCP設定の変更に失敗しました");
    e.append(": 指定したネットワークアダプターが見つかりません。");
    Err(e)
}

/// Connected adapters that do not use DHCP yet.
pub open spec fn needs_dhcp(a: AdapterRecord) -> bool {
    a.info.connected && !a.info.dhcp_enabled
}

/// The adapters that need DHCP, in order.
pub open spec fn adapters_needing_dhcp(adapters: Seq<AdapterRecord>) -> Seq<AdapterRecord> {
    adapters.filter(|a: AdapterRecord| needs_dhcp(a))
}

/// The plans for every connected adapter that does not use DHCP, in order; each is carried
/// out even when an earlier one fails, and the first failure is reported.
pub fn enable_dhcp_for_connected_adapters(adapters: &Vec<AdapterRecord>) -> (plans: Vec<DhcpPlan>)
    ensures
        plans@.len() == adapters_needing_dhcp(adapters@).len(),
        forall|k: int| 0 <= k < plans@.len() ==> {
            let a = #[trigger] adapters_needing_dhcp(adapters@)[k];
            dhcp_plan_matches(plans@[k], a.info.id@, a.if_index)
        },
{
    let ghost pred = |a: AdapterRecord| needs_dhcp(a);
    let mut plans: Vec<DhcpPlan> = Vec::new();
    let mut i: usize = 0;
    while i < adapters.len()
        invariant
            i <= adapters@.len(),
            pred == (|a: AdapterRecord| needs_dhcp(a)),
            plans@.len() == adapters@.take(i as int).filter(pred).len(),
            forall|k: int| 0 <= k < plans@.len() ==> {
                let a = #[trigger] adapters@.take(i as int).filter(pred)[k];
                dhcp_plan_matches(plans@[k], a.info.id@, a.if_index)
            },
        decreases adapters@.len() - i,
    {
        let ghost before = adapters@.take(i as int);
        let ghost after = adapters@.take(i + 1);
        assert(after.drop_last() == before);
        assert(after.last() == adapters@[i as int]);
        proof {
            reveal(Seq::filter);
        }
        if adapters[i].info.connected && !adapters[i].info.dhcp_enabled {
            plans.push(dhcp_plan(&adapters[i]));
            assert(after.filter(pred) == before.filter(pred).push(adapters@[i as int]));
            assert forall|k: int| 0 <= k < plans@.len() implies {
                let a = #[trigger] after.filter(pred)[k];
                dhcp_plan_matches(plans@[k], a.info.id@, a.if_index)
            } by {
                if k < plans@.len() - 1 {
                    assert(after.filter(pred)[k] == before.filter(pred)[k]);
                }
            }
        } else {
            assert(after.filter(pred) == before.filter(pred));
        }
        i = i + 1;
    }
    assert(adapters@.take(adapters@.len() as int) == adapters@);
    plans
}

/// The adapters listed are the entries Windows reported that are not loopback (type 24) and
/// have an id and a name, in the order reported, each keeping that entry's id, name,
/// description, interface index, DHCP flag (bit 4 of the flags) and connection state.
pub proof fn lemma_adapters_keep_reported_fields(raw: Seq<RawAdapter>)
    ensures
        adapters_of(raw).len() == raw.filter(
            |a: RawAdapter| a.if_type != 24 && a.id@.len() > 0 && a.name@.len() > 0,
        ).len(),
        forall|k: int| 0 <= k < adapters_of(raw).len() ==> {
            let e = raw.filter(|a: RawAdapter| a.if_type != 24 && a.id@.len() > 0 && a.name@.len() > 0)[k];
            let (info, if_index) = #[trigger] adapters_of(raw)[k];
            &&& info.id == e.id@
            &&& info.name == e.name@
            &&& info.description == e.description@
            &&& info.dhcp_enabled == (e.flags & 4 != 0)
            &&& info.connected == e.oper_status_up
            &&& if_index == e.if_index
        },
    decreases raw.len(),
{
    let keep = |a: RawAdapter| a.if_type != 24 && a.id@.len() > 0 && a.name@.len() > 0;
    reveal(Seq::filter);
    if raw.len() > 0 {
        let prev = raw.drop_last();
        lemma_adapters_keep_reported_fields(prev);
        let last = raw.last();
        if keep(last) {
            assert(raw.filter(keep) == prev.filter(keep).push(last));
            assert(adapters_of(raw) == adapters_of(prev).push(adapter_of(last).unwrap()));
        } else {
            assert(raw.filter(keep) == prev.filter(keep));
            assert(adapters_of(raw) == adapters_of(prev));
        }
    }
}

} // verus!
