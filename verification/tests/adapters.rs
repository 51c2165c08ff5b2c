use winops::dhcp::{
    collect_adapters, dhcp_steps, enable_dhcp, enable_dhcp_for_connected_adapters, ethernet_adapter_ids,
    index_map_name, interface_key, list_network_adapters, DhcpStep, NetworkAdapterInfo, RawAdapter,
};
use winops::registry::{RegistryData, RegistryRoot};
use winops::optimize::{
    disable_keywords, ids_match, is_adapter_instance, tune_ethernet_adapters, vmix_exe_candidates,
    AdapterInstance, FLOW_CONTROL_RX_TX, PNP_NO_POWER_MANAGEMENT,
};

fn raw(if_type: u32, id: &str, name: &str, flags: u32, up: bool, if_index: u32) -> RawAdapter {
    RawAdapter {
        if_type,
        id: id.into(),
        name: name.into(),
        description: "desc".into(),
        flags,
        oper_status_up: up,
        if_index,
    }
}

#[test]
fn adapter_info_keeps_id_and_name() {
    let adapter = NetworkAdapterInfo {
        id: "{abc}".into(),
        name: "Ethernet".into(),
        description: "USB LAN".into(),
        dhcp_enabled: false,
        connected: true,
    };
    assert_eq!(adapter.name, "Ethernet");
    assert!(!adapter.dhcp_enabled);
}

#[test]
fn adapter_ids_match_with_or_without_braces() {
    assert!(ids_match("{ABC-DEF}", "abc-def"));
    assert!(!ids_match("{ABC-DEF}", "{123}"));
}

#[test]
fn ndi_keywords_cover_qos_and_power_saving() {
    let keywords = disable_keywords();
    assert!(keywords.contains(&"*EEE"));
    assert!(keywords.contains(&"*InterruptModeration"));
    assert!(keywords.contains(&"*PriorityVLANTag"));
    assert_eq!(PNP_NO_POWER_MANAGEMENT, 24);
    assert_eq!(FLOW_CONTROL_RX_TX, 3);
}

#[test]
fn loopback_and_unnamed_adapters_are_left_out() {
    let list = vec![
        raw(24, "{lo}", "Loopback", 0, true, 1),
        raw(6, "{a}", "Ethernet", 4, true, 2),
        raw(6, "", "Nameless id", 0, true, 3),
        raw(71, "{w}", "Wi-Fi", 0, false, 4),
        raw(6, "{b}", "", 0, true, 5),
    ];
    let records = collect_adapters(&list);
    let infos = list_network_adapters(&records);
    assert_eq!(infos.len(), 2);
    assert_eq!(infos[0].id, "{a}");
    assert!(infos[0].dhcp_enabled);
    assert!(infos[0].connected);
    assert_eq!(records[0].if_index, 2);
    assert_eq!(infos[1].name, "Wi-Fi");
    assert!(!infos[1].dhcp_enabled);
    assert!(!infos[1].connected);
    assert_eq!(ethernet_adapter_ids(&list), vec!["{a}".to_string(), "{b}".to_string()]);
}

#[test]
fn dhcp_targets_the_adapter_by_id_ignoring_case() {
    let records = collect_adapters(&vec![raw(6, "{AbC}", "Ethernet", 0, true, 7)]);
    let plan = enable_dhcp(&records, "{abc}").unwrap();
    assert_eq!(plan.registry_key, r"SYSTEM\CurrentControlSet\Services\Tcpip\Parameters\Interfaces\{AbC}");
    assert_eq!(plan.if_index, 7);
    let expected: Vec<u16> = "{AbC}".encode_utf16().chain(std::iter::once(0)).collect();
    assert_eq!(plan.adapter_name, expected);
    assert_eq!(plan.enable_dhcp.subkey, plan.registry_key);
    assert_eq!(plan.enable_dhcp.name, "EnableDHCP");
    assert!(matches!(plan.enable_dhcp.data, RegistryData::Dword(1)));
    assert!(matches!(plan.enable_dhcp.root, RegistryRoot::LocalMachine));
    assert_eq!(plan.remove_values, vec!["IPAddress", "SubnetMask", "DefaultGateway"]);
    let error = enable_dhcp(&records, "{zzz}").err().unwrap();
    assert_eq!(error, "DHCP設定の変更に失敗しました: 指定したネットワークアダプターが見つかりません。");
}

#[test]
fn dhcp_for_connected_adapters_skips_the_rest() {
    let records = collect_adapters(&vec![
        raw(6, "{a}", "A", 0, true, 1),
        raw(6, "{b}", "B", 4, true, 2),
        raw(6, "{c}", "C", 0, false, 3),
        raw(6, "{d}", "D", 0, true, 4),
    ]);
    let plans = enable_dhcp_for_connected_adapters(&records);
    let indexes: Vec<u32> = plans.iter().map(|p| p.if_index).collect();
    assert_eq!(indexes, vec![1, 4]);
}

#[test]
fn interface_keys_drop_braces_only_when_not_leading() {
    assert_eq!(interface_key("abc}"), r"SYSTEM\CurrentControlSet\Services\Tcpip\Parameters\Interfaces\abc");
    assert_eq!(interface_key("{x}"), r"SYSTEM\CurrentControlSet\Services\Tcpip\Parameters\Interfaces\{x}");
    let name = index_map_name("{ab}");
    assert_eq!(name.len(), 128);
    assert_eq!(&name[..5], &[b'{' as u16, b'a' as u16, b'b' as u16, b'}' as u16, 0]);
    let long = "x".repeat(200);
    let name = index_map_name(&long);
    assert_eq!(name[126], b'x' as u16);
    assert_eq!(name[127], 0);
}

#[test]
fn instances_are_four_digit_keys_of_listed_adapters() {
    assert!(is_adapter_instance("0007"));
    assert!(!is_adapter_instance("Properties"));
    assert!(!is_adapter_instance("00007"));
    assert!(!is_adapter_instance("０００７"));
    let instances = vec![
        AdapterInstance { name: "0000".into(), net_cfg_id: Some("{ABC}".into()) },
        AdapterInstance { name: "0001".into(), net_cfg_id: Some("{def}".into()) },
        AdapterInstance { name: "Properties".into(), net_cfg_id: Some("{abc}".into()) },
        AdapterInstance { name: "0002".into(), net_cfg_id: None },
    ];
    let tunings = tune_ethernet_adapters(&instances, &vec!["abc".to_string()]);
    assert_eq!(tunings.len(), 1);
    assert_eq!(
        tunings[0].key,
        r"SYSTEM\CurrentControlSet\Control\Class\{4d36e972-e325-11ce-bfc1-08002be10318}\0000"
    );
    assert_eq!(tunings[0].existing.len(), 21);
    assert_eq!(tunings[0].existing[20].name, "FlowControl");
    assert_eq!(tunings[0].existing[20].value, 3);
}

#[test]
fn vmix_is_looked_for_under_both_program_files() {
    let paths = vmix_exe_candidates(Some(r"C:\Program Files".into()), None);
    assert_eq!(
        paths,
        vec![r"C:\Program Files\vMix\vMix64.exe".to_string(), r"C:\Program Files\vMix\vMix.exe".to_string()]
    );
    assert_eq!(vmix_exe_candidates(None, Some("D:".into())).len(), 2);
    assert!(vmix_exe_candidates(None, None).is_empty());
}

#[test]
fn dhcp_steps_set_remove_notify_renew_in_order() {
    let records = collect_adapters(&vec![raw(6, "{a}", "Ethernet", 0, true, 9)]);
    let plan = enable_dhcp(&records, "{A}").unwrap();
    let key = plan.registry_key.clone();
    let map_name = plan.index_map_name.clone();
    let steps = dhcp_steps(plan);
    assert_eq!(steps.len(), 6);
    match &steps[0] {
        DhcpStep::SetValue(write) => assert_eq!(write.name, "EnableDHCP"),
        _ => panic!("EnableDHCP is set first"),
    }
    let removed: Vec<String> = steps[1..4]
        .iter()
        .map(|step| match step {
            DhcpStep::DeleteValue { key: k, name } => {
                assert_eq!(k, &key);
                name.clone()
            }
            _ => panic!("the static address values are removed next"),
        })
        .collect();
    assert_eq!(removed, vec!["IPAddress", "SubnetMask", "DefaultGateway"]);
    let expected: Vec<u16> = "{a}".encode_utf16().chain(std::iter::once(0)).collect();
    assert!(matches!(&steps[4], DhcpStep::NotifyConfigChange(name) if *name == expected));
    assert!(matches!(&steps[5], DhcpStep::RenewAddress { if_index: 9, name } if *name == map_name));
}
