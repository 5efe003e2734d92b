use netiface_store::model::{Gateway, InterfaceType, NetworkInterface, Status};
use netiface_store::store::{Store, StoreError};

fn gw(name: &str, ip: &str, mask: &str) -> Gateway {
    Gateway { name: name.to_string(), ip: ip.to_string(), subnet_mask: mask.to_string() }
}

fn sentinel_gw() -> Gateway {
    gw("N/A", "N/A", "N/A")
}

fn iface(name: &str, gateway: Vec<Gateway>, dns: Vec<String>, ipv4: Option<&str>) -> NetworkInterface {
    NetworkInterface {
        name: name.to_string(),
        interface_type: InterfaceType::Ethernet,
        status: Status::Active,
        mac_address: Some("aa:bb:cc:dd:ee:ff".to_string()),
        ipv4_address: ipv4.map(|s| s.to_string()),
        gateway,
        dns,
    }
}

fn one_record_store(ipv4: Option<&str>) -> Store {
    Store::from_records(vec![iface(
        "eth0",
        vec![sentinel_gw()],
        vec!["N/A".to_string()],
        ipv4,
    )])
}

#[test]
fn update_ipv4_then_load_shows_value() {
    let mut store = one_record_store(Some("N/A"));
    let r = store.update_ipv4_address(0, Some("10.0.0.9".to_string()));
    assert!(r.is_ok());
    let loaded = store.load();
    assert_eq!(loaded[0].ipv4_address, Some("10.0.0.9".to_string()));
}

#[test]
fn update_ipv4_to_none_clears_field() {
    let mut store = one_record_store(Some("192.168.1.4"));
    assert!(store.update_ipv4_address(0, None).is_ok());
    assert_eq!(store.load()[0].ipv4_address, None);
}

#[test]
fn delete_ipv4_sets_sentinel() {
    let mut store = one_record_store(Some("192.168.1.4"));
    assert!(store.delete_ipv4_address(0).is_ok());
    assert_eq!(store.load()[0].ipv4_address, Some("N/A".to_string()));
}

#[test]
fn out_of_range_index_errors_and_leaves_store_unchanged() {
    let mut store = one_record_store(Some("192.168.1.4"));
    let before = store.load();

    assert_eq!(store.update_ipv4_address(3, Some("10.0.0.1".to_string())), Err(StoreError::IndexError));
    assert_eq!(store.delete_ipv4_address(3), Err(StoreError::IndexError));
    assert_eq!(
        store.add_if_na(3, None, None, Some("10.0.0.1".to_string())),
        Err(StoreError::IndexError)
    );
    assert_eq!(store.save_gateways(3, vec![sentinel_gw()]), Err(StoreError::IndexError));
    assert_eq!(store.add_gateways(3, vec![sentinel_gw()]), Err(StoreError::IndexError));
    assert_eq!(store.delete_gateways(3, vec![0]), Err(StoreError::IndexError));

    assert_eq!(store.load(), before);
}

#[test]
fn fill_if_unset_leaves_real_ipv4_untouched() {
    let mut store = one_record_store(Some("192.168.1.4"));
    let r = store.add_if_na(0, None, None, Some("10.0.0.5".to_string()));
    assert!(r.is_ok());
    assert_eq!(store.load()[0].ipv4_address, Some("192.168.1.4".to_string()));
}

#[test]
fn fill_if_unset_leaves_absent_ipv4_untouched() {
    let mut store = one_record_store(None);
    assert!(store.add_if_na(0, None, None, Some("10.0.0.5".to_string())).is_ok());
    assert_eq!(store.load()[0].ipv4_address, None);
}

#[test]
fn fill_if_unset_replaces_sentinel_ipv4_exactly_once() {
    let mut store = one_record_store(Some("N/A"));
    assert!(store.add_if_na(0, None, None, Some("10.0.0.5".to_string())).is_ok());
    assert_eq!(store.load()[0].ipv4_address, Some("10.0.0.5".to_string()));

    assert!(store.add_if_na(0, None, None, Some("10.9.9.9".to_string())).is_ok());
    assert_eq!(store.load()[0].ipv4_address, Some("10.0.0.5".to_string()));
}

#[test]
fn fill_if_unset_replaces_sentinel_gateway_and_dns() {
    let mut store = one_record_store(Some("N/A"));
    let r = store.add_if_na(
        0,
        Some(vec![gw("Default", "192.168.1.1", "255.255.255.0")]),
        Some(vec!["8.8.8.8".to_string()]),
        None,
    );
    assert!(r.is_ok());
    let rec = &store.load()[0];
    assert_eq!(rec.gateway, vec![gw("Default", "192.168.1.1", "255.255.255.0")]);
    assert_eq!(rec.dns, vec!["8.8.8.8".to_string()]);
}

#[test]
fn fill_if_unset_leaves_real_gateway_and_dns_untouched() {
    let real_gw = vec![gw("Default", "192.168.1.1", "255.255.255.0")];
    let real_dns = vec!["1.1.1.1".to_string()];
    let mut store = Store::from_records(vec![iface(
        "eth0",
        real_gw.clone(),
        real_dns.clone(),
        Some("192.168.1.4"),
    )]);
    let r = store.add_if_na(
        0,
        Some(vec![gw("Default", "10.0.0.1", "255.0.0.0")]),
        Some(vec!["9.9.9.9".to_string()]),
        None,
    );
    assert!(r.is_ok());
    let rec = &store.load()[0];
    assert_eq!(rec.gateway, real_gw);
    assert_eq!(rec.dns, real_dns);
}

#[test]
fn full_fill_scenario_replaces_every_sentinel() {
    let mut store = Store::from_records(vec![iface(
        "eth0",
        vec![sentinel_gw()],
        vec!["N/A".to_string()],
        Some("N/A"),
    )]);
    let r = store.add_if_na(
        0,
        Some(vec![gw("Default", "192.168.1.1", "255.255.255.0")]),
        Some(vec!["8.8.8.8".to_string()]),
        Some("192.168.1.20".to_string()),
    );
    assert!(r.is_ok());
    let rec = &store.load()[0];
    assert_eq!(rec.gateway, vec![gw("Default", "192.168.1.1", "255.255.255.0")]);
    assert_eq!(rec.dns, vec!["8.8.8.8".to_string()]);
    assert_eq!(rec.ipv4_address, Some("192.168.1.20".to_string()));
}

#[test]
fn save_gateways_replaces_list_unconditionally() {
    let mut store = Store::from_records(vec![iface(
        "eth0",
        vec![gw("Default", "192.168.1.1", "255.255.255.0")],
        vec!["8.8.8.8".to_string()],
        Some("192.168.1.4"),
    )]);
    let new_list = vec![gw("Default", "10.0.0.1", "255.0.0.0"), gw("Default", "10.0.0.2", "255.0.0.0")];
    assert!(store.save_gateways(0, new_list.clone()).is_ok());
    assert_eq!(store.load()[0].gateway, new_list);
}

#[test]
fn merge_gateways_overwrites_single_sentinel_in_place() {
    let mut store = one_record_store(Some("N/A"));
    let incoming = gw("Default", "192.168.1.1", "255.255.255.0");
    assert!(store.add_gateways(0, vec![incoming.clone()]).is_ok());
    let list = &store.load()[0].gateway;
    assert_eq!(list.len(), 1);
    assert_eq!(list[0], incoming);
}

#[test]
fn merge_gateways_appends_when_no_sentinel() {
    let existing = gw("Default", "192.168.1.1", "255.255.255.0");
    let mut store = Store::from_records(vec![iface(
        "eth0",
        vec![existing.clone()],
        vec!["8.8.8.8".to_string()],
        Some("192.168.1.4"),
    )]);
    let a = gw("Default", "10.0.0.1", "255.0.0.0");
    let b = gw("Default", "10.0.0.2", "255.0.0.0");
    assert!(store.add_gateways(0, vec![a.clone(), b.clone()]).is_ok());
    assert_eq!(store.load()[0].gateway, vec![existing, a, b]);
}

#[test]
fn merge_gateways_fills_first_sentinel_then_appends() {
    let real = gw("Default", "192.168.1.1", "255.255.255.0");
    let mut store = Store::from_records(vec![iface(
        "eth0",
        vec![real.clone(), sentinel_gw()],
        vec!["8.8.8.8".to_string()],
        Some("192.168.1.4"),
    )]);
    let a = gw("Default", "10.0.0.1", "255.0.0.0");
    let b = gw("Default", "10.0.0.2", "255.0.0.0");
    assert!(store.add_gateways(0, vec![a.clone(), b.clone()]).is_ok());
    assert_eq!(store.load()[0].gateway, vec![real, a, b]);
}

#[test]
fn delete_gateways_descending_positions_keep_meaning() {
    let g0 = gw("Default", "10.0.0.0", "255.0.0.0");
    let g1 = gw("Default", "10.0.0.1", "255.0.0.0");
    let g2 = gw("Default", "10.0.0.2", "255.0.0.0");
    let mut store = Store::from_records(vec![iface(
        "eth0",
        vec![g0, g1.clone(), g2],
        vec!["8.8.8.8".to_string()],
        Some("192.168.1.4"),
    )]);
    assert!(store.delete_gateways(0, vec![2, 0]).is_ok());
    assert_eq!(store.load()[0].gateway, vec![g1]);
}

#[test]
fn delete_gateways_invalid_position_deletes_nothing() {
    let g0 = gw("Default", "10.0.0.0", "255.0.0.0");
    let g1 = gw("Default", "10.0.0.1", "255.0.0.0");
    let mut store = Store::from_records(vec![iface(
        "eth0",
        vec![g0, g1],
        vec!["8.8.8.8".to_string()],
        Some("192.168.1.4"),
    )]);
    let before = store.load();

    // The second position is out of range once the first removal happened.
    assert_eq!(store.delete_gateways(0, vec![0, 1]), Err(StoreError::IndexError));
    assert_eq!(store.load(), before);

    // The first position is out of range from the start.
    assert_eq!(store.delete_gateways(0, vec![5]), Err(StoreError::IndexError));
    assert_eq!(store.load(), before);
}

#[test]
fn save_then_load_round_trips() {
    let records = vec![
        iface(
            "eth0",
            vec![gw("Default", "192.168.1.1", "255.255.255.0")],
            vec!["8.8.8.8".to_string(), "1.1.1.1".to_string()],
            Some("192.168.1.4"),
        ),
        NetworkInterface {
            name: "lo".to_string(),
            interface_type: InterfaceType::WiFi,
            status: Status::Active,
            mac_address: None,
            ipv4_address: Some("127.0.0.1".to_string()),
            gateway: vec![sentinel_gw()],
            dns: vec!["N/A".to_string()],
        },
    ];
    let mut store = Store::new();
    store.save(records.clone());
    assert_eq!(store.load(), records);
}

#[test]
fn new_store_loads_empty() {
    let store = Store::new();
    assert_eq!(store.load(), Vec::<NetworkInterface>::new());
}

#[test]
fn error_kinds_are_distinct() {
    assert_ne!(StoreError::IndexError, StoreError::PersistenceError);
}
