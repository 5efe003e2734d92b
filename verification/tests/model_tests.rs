use netiface_store::model::{
    dns_contains_sentinel, gateway_is_sentinel, gateways_have_sentinel, ipv4_sentinel,
    sentinel_gateway, Gateway,
};

fn gw(name: &str, ip: &str, mask: &str) -> Gateway {
    Gateway { name: name.to_string(), ip: ip.to_string(), subnet_mask: mask.to_string() }
}

#[test]
fn sentinel_gateway_has_na_in_every_field() {
    let g = sentinel_gateway();
    assert_eq!(g, gw("N/A", "N/A", "N/A"));
}

#[test]
fn sentinel_is_recognized_by_name_alone() {
    assert!(gateway_is_sentinel(&sentinel_gateway()));
    assert!(gateway_is_sentinel(&gw("N/A", "10.0.0.1", "255.0.0.0")));
    assert!(!gateway_is_sentinel(&gw("Default", "N/A", "N/A")));
}

#[test]
fn gateway_list_sentinel_detection() {
    assert!(gateways_have_sentinel(&vec![sentinel_gateway()]));
    assert!(gateways_have_sentinel(&vec![
        gw("Default", "10.0.0.1", "255.0.0.0"),
        sentinel_gateway(),
    ]));
    assert!(!gateways_have_sentinel(&vec![gw("Default", "10.0.0.1", "255.0.0.0")]));
    assert!(!gateways_have_sentinel(&Vec::new()));
}

#[test]
fn dns_sentinel_detection() {
    assert!(dns_contains_sentinel(&vec!["N/A".to_string()]));
    assert!(dns_contains_sentinel(&vec!["8.8.8.8".to_string(), "N/A".to_string()]));
    assert!(!dns_contains_sentinel(&vec!["8.8.8.8".to_string()]));
    assert!(!dns_contains_sentinel(&Vec::new()));
}

#[test]
fn ipv4_sentinel_detection() {
    assert!(ipv4_sentinel(&Some("N/A".to_string())));
    assert!(!ipv4_sentinel(&Some("192.168.1.4".to_string())));
    assert!(!ipv4_sentinel(&None));
}

#[test]
fn gateway_clone_copies_every_field() {
    let g = gw("Default", "192.168.1.1", "255.255.255.0");
    let c = g.clone();
    assert_eq!(c, g);
}
