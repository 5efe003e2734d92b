//! The interface snapshot builder: turns locally observed interface data and
//! externally obtained routing and resolver query results into canonical
//! records.  Querying the operating system is the caller's concern; the
//! builder receives plain values and degrades missing data to sentinels.

use vstd::prelude::*;
use vstd::string::StringExecFns;
use crate::model::{
    Gateway, GatewayV, InterfaceType, NetworkInterface, NetworkInterfaceV, Status,
    na, na_string, sentinel_gateway, sentinel_gateway_v,
    clone_opt_string, clone_strings,
};

verus! {

/// What a host observation of one interface hands the builder.
pub struct ObservedInterface {
    pub name: String,
    pub is_up: bool,
    pub is_loopback: bool,
    pub mac_address: Option<String>,
    pub ipv4_address: Option<String>,
    /// Addresses of the default routes bound to this interface, from the
    /// host's routing table.
    pub gateway_ips: Vec<String>,
    /// The host's configured nameservers (DNS is host-global, so every
    /// observation carries the same list).
    pub nameservers: Vec<String>,
}

/// Mathematical image of an `ObservedInterface`.
pub struct ObservedInterfaceV {
    pub name: Seq<char>,
    pub is_up: bool,
    pub is_loopback: bool,
    pub mac_address: Option<Seq<char>>,
    pub ipv4_address: Option<Seq<char>>,
    pub gateway_ips: Seq<Seq<char>>,
    pub nameservers: Seq<Seq<char>>,
}

impl View for ObservedInterface {
    type V = ObservedInterfaceV;

    open spec fn view(&self) -> ObservedInterfaceV {
        ObservedInterfaceV {
            name: self.name@,
            is_up: self.is_up,
            is_loopback: self.is_loopback,
            mac_address: self.mac_address.deep_view(),
            ipv4_address: self.ipv4_address.deep_view(),
            gateway_ips: self.gateway_ips.deep_view(),
            nameservers: self.nameservers.deep_view(),
        }
    }
}

impl DeepView for ObservedInterface {
    type V = ObservedInterfaceV;

    open spec fn deep_view(&self) -> ObservedInterfaceV {
        self.view()
    }
}

/// Classification of an observed interface: an administratively-up loopback
/// interface is labeled `WiFi`, any other up interface `Ethernet`, and a
/// down interface `Unknown`.  The loopback mapping is preserved verbatim as
/// a deliberate compatibility choice, not a judgment call.
pub open spec fn spec_interface_type(is_up: bool, is_loopback: bool) -> InterfaceType {
    if is_up {
        if is_loopback {
            InterfaceType::WiFi
        } else {
            InterfaceType::Ethernet
        }
    } else {
        InterfaceType::Unknown
    }
}

/// Classifies an observed interface.
pub fn interface_type_of(is_up: bool, is_loopback: bool) -> (t: InterfaceType)
    ensures
        t == spec_interface_type(is_up, is_loopback),
{
    if is_up {
        if is_loopback {
            InterfaceType::WiFi
        } else {
            InterfaceType::Ethernet
        }
    } else {
        InterfaceType::Unknown
    }
}

/// Status of an observed interface: `Active` exactly when it is
/// administratively up.
pub open spec fn spec_status(is_up: bool) -> Status {
    if is_up {
        Status::Active
    } else {
        Status::Inactive
    }
}

/// Derives the status of an observed interface.
pub fn status_of(is_up: bool) -> (s: Status)
    ensures
        s == spec_status(is_up),
{
    if is_up {
        Status::Active
    } else {
        Status::Inactive
    }
}

/// The gateway record made for one default-route address: named "Default",
/// with a fixed placeholder subnet mask.
pub open spec fn gateway_for_ip_v(ip: Seq<char>) -> GatewayV {
    GatewayV { name: "Default"@, ip: ip, subnet_mask: "255.255.255.0"@ }
}

/// Builds the gateway record for one default-route address.
pub fn gateway_for_ip(ip: String) -> (g: Gateway)
    ensures
        g@ == gateway_for_ip_v(ip@),
{
    Gateway {
        name: String::from_str("Default"),
        ip,
        subnet_mask: String::from_str("255.255.255.0"),
    }
}

/// The gateway list derived from the default-route addresses found for an
/// interface: one record per address, or a single sentinel when none was
/// found.
pub open spec fn gateways_from_ips_v(ips: Seq<Seq<char>>) -> Seq<GatewayV> {
    if ips.len() == 0 {
        seq![sentinel_gateway_v()]
    } else {
        ips.map_values(|ip: Seq<char>| gateway_for_ip_v(ip))
    }
}

/// Derives the gateway list from the default-route addresses found for an
/// interface.
pub fn gateways_from_ips(ips: &Vec<String>) -> (r: Vec<Gateway>)
    ensures
        r.deep_view() == gateways_from_ips_v(ips.deep_view()),
{
    if ips.len() == 0 {
        let mut r: Vec<Gateway> = Vec::new();
        r.push(sentinel_gateway());
        proof {
            assert(r.deep_view() =~= seq![sentinel_gateway_v()]);
        }
        r
    } else {
        let mut r: Vec<Gateway> = Vec::new();
        let mut i: usize = 0;
        while i < ips.len()
            invariant
                i <= ips.len(),
                r.deep_view().len() == i,
                forall|j: int| 0 <= j < i ==> r.deep_view()[j] == gateway_for_ip_v(
                    ips.deep_view()[j],
                ),
            decreases ips.len() - i,
        {
            let g = gateway_for_ip(ips[i].clone());
            let ghost prev = r.deep_view();
            let ghost gv = g@;
            r.push(g);
            proof {
                assert(r.deep_view() =~= prev.push(gv));
                assert(r.deep_view()[i as int] == gateway_for_ip_v(ips.deep_view()[i as int]));
            }
            i += 1;
        }
        proof {
            assert(r.deep_view() =~= ips.deep_view().map_values(
                |ip: Seq<char>| gateway_for_ip_v(ip),
            ));
        }
        r
    }
}

/// The DNS list derived from the configured nameservers: the list itself, or
/// a single sentinel entry when none was found.
pub open spec fn dns_from_nameservers_v(ns: Seq<Seq<char>>) -> Seq<Seq<char>> {
    if ns.len() == 0 {
        seq![na()]
    } else {
        ns
    }
}

/// Derives the DNS list from the configured nameservers.
pub fn dns_from_nameservers(ns: &Vec<String>) -> (r: Vec<String>)
    ensures
        r.deep_view() == dns_from_nameservers_v(ns.deep_view()),
{
    if ns.len() == 0 {
        let mut r: Vec<String> = Vec::new();
        r.push(na_string());
        proof {
            assert(r.deep_view() =~= seq![na()]);
        }
        r
    } else {
        let r = clone_strings(ns);
        proof {
            assert(r.deep_view() =~= ns.deep_view());
        }
        r
    }
}

/// The canonical record built from one observation.
pub open spec fn build_record_v(o: ObservedInterfaceV) -> NetworkInterfaceV {
    NetworkInterfaceV {
        name: o.name,
        interface_type: spec_interface_type(o.is_up, o.is_loopback),
        status: spec_status(o.is_up),
        mac_address: o.mac_address,
        ipv4_address: o.ipv4_address,
        gateway: gateways_from_ips_v(o.gateway_ips),
        dns: dns_from_nameservers_v(o.nameservers),
    }
}

/// Builds the canonical record for one observed interface.
pub fn build_interface_record(o: &ObservedInterface) -> (r: NetworkInterface)
    ensures
        r@ == build_record_v(o@),
{
    NetworkInterface {
        name: o.name.clone(),
        interface_type: interface_type_of(o.is_up, o.is_loopback),
        status: status_of(o.is_up),
        mac_address: clone_opt_string(&o.mac_address),
        ipv4_address: clone_opt_string(&o.ipv4_address),
        gateway: gateways_from_ips(&o.gateway_ips),
        dns: dns_from_nameservers(&o.nameservers),
    }
}

/// The canonical record set built from a list of observations, in order.
pub open spec fn snapshot_v(observed: Seq<ObservedInterfaceV>) -> Seq<NetworkInterfaceV> {
    observed.map_values(|o: ObservedInterfaceV| build_record_v(o))
}

/// Builds the canonical record set for a list of observed interfaces.
pub fn build_snapshot(observed: &Vec<ObservedInterface>) -> (r: Vec<NetworkInterface>)
    ensures
        r.deep_view() == snapshot_v(observed.deep_view()),
{
    let mut r: Vec<NetworkInterface> = Vec::new();
    let mut i: usize = 0;
    while i < observed.len()
        invariant
            i <= observed.len(),
            r.deep_view().len() == i,
            forall|j: int| 0 <= j < i ==> r.deep_view()[j] == build_record_v(
                observed.deep_view()[j],
            ),
        decreases observed.len() - i,
    {
        let rec = build_interface_record(&observed[i]);
        let ghost prev = r.deep_view();
        let ghost rv = rec@;
        r.push(rec);
        proof {
            assert(r.deep_view() =~= prev.push(rv));
            assert(r.deep_view()[i as int] == build_record_v(observed.deep_view()[i as int]));
        }
        i += 1;
    }
    proof {
        assert(r.deep_view() =~= snapshot_v(observed.deep_view()));
    }
    r
}

} // verus!
