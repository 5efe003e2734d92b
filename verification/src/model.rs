//! Data model: gateways, interface records, their mathematical views, the
//! "N/A" sentinel, and verified deep-copy helpers.

use vstd::prelude::*;
use vstd::string::StringExecFns;

verus! {

/// The sentinel text that marks a field as "not set".
pub open spec fn na() -> Seq<char> {
    "N/A"@
}

/// Builds the sentinel text as an executable string.
pub fn na_string() -> (s: String)
    ensures
        s@ == na(),
{
    String::from_str("N/A")
}

/// One default-route entry of an interface.  A gateway has no identity beyond
/// its position in the owning interface's gateway list.
#[derive(PartialEq, Eq, Debug)]
pub struct Gateway {
    pub name: String,
    pub ip: String,
    pub subnet_mask: String,
}

/// Mathematical image of a `Gateway`.
pub struct GatewayV {
    pub name: Seq<char>,
    pub ip: Seq<char>,
    pub subnet_mask: Seq<char>,
}

impl View for Gateway {
    type V = GatewayV;

    open spec fn view(&self) -> GatewayV {
        GatewayV { name: self.name@, ip: self.ip@, subnet_mask: self.subnet_mask@ }
    }
}

impl DeepView for Gateway {
    type V = GatewayV;

    open spec fn deep_view(&self) -> GatewayV {
        self.view()
    }
}

impl Clone for Gateway {
    fn clone(&self) -> (r: Self)
        ensures
            r == *self,
    {
        Gateway {
            name: self.name.clone(),
            ip: self.ip.clone(),
            subnet_mask: self.subnet_mask.clone(),
        }
    }
}

/// The sentinel gateway: every field holds the sentinel text.
pub open spec fn sentinel_gateway_v() -> GatewayV {
    GatewayV { name: na(), ip: na(), subnet_mask: na() }
}

/// Builds the sentinel gateway as an executable value.
pub fn sentinel_gateway() -> (g: Gateway)
    ensures
        g@ == sentinel_gateway_v(),
{
    Gateway { name: na_string(), ip: na_string(), subnet_mask: na_string() }
}

/// A gateway counts as the sentinel exactly when its `name` field is "N/A".
pub open spec fn is_sentinel_gateway(g: GatewayV) -> bool {
    g.name == na()
}

/// Whether a gateway list contains at least one sentinel entry.
pub open spec fn has_sentinel_gateway(gs: Seq<GatewayV>) -> bool {
    exists|i: int| 0 <= i < gs.len() && is_sentinel_gateway(gs[i])
}

/// Whether a DNS list contains the sentinel entry.
pub open spec fn dns_has_sentinel(dns: Seq<Seq<char>>) -> bool {
    dns.contains(na())
}

/// Whether an optional address holds the sentinel text.
pub open spec fn ipv4_is_sentinel(v: Option<Seq<char>>) -> bool {
    v == Some(na())
}

/// How an interface is classified.  Administratively-up loopback interfaces
/// are deliberately labeled `WiFi` for compatibility with the historical
/// classification this crate preserves.
#[derive(PartialEq, Eq, Structural, Clone, Copy, Debug)]
pub enum InterfaceType {
    Ethernet,
    WiFi,
    Unknown,
}

impl InterfaceType {
    /// The display text of the classification.
    pub fn label(&self) -> (s: &'static str)
        ensures
            *self == InterfaceType::Ethernet ==> s@ == "Ethernet"@,
            *self == InterfaceType::WiFi ==> s@ == "Wi-Fi"@,
            *self == InterfaceType::Unknown ==> s@ == "Unknown"@,
    {
        match self {
            InterfaceType::Ethernet => "Ethernet",
            InterfaceType::WiFi => "Wi-Fi",
            InterfaceType::Unknown => "Unknown",
        }
    }
}

/// Whether an interface is administratively up.
#[derive(PartialEq, Eq, Structural, Clone, Copy, Debug)]
pub enum Status {
    Active,
    Inactive,
}

impl Status {
    /// The display text of the status.
    pub fn label(&self) -> (s: &'static str)
        ensures
            *self == Status::Active ==> s@ == "Active"@,
            *self == Status::Inactive ==> s@ == "Inactive"@,
    {
        match self {
            Status::Active => "Active",
            Status::Inactive => "Inactive",
        }
    }
}

/// One record of the record set: a snapshot of a single network interface.
#[derive(PartialEq, Eq, Debug)]
pub struct NetworkInterface {
    pub name: String,
    pub interface_type: InterfaceType,
    pub status: Status,
    pub mac_address: Option<String>,
    pub ipv4_address: Option<String>,
    pub gateway: Vec<Gateway>,
    pub dns: Vec<String>,
}

/// Mathematical image of a `NetworkInterface`.
pub struct NetworkInterfaceV {
    pub name: Seq<char>,
    pub interface_type: InterfaceType,
    pub status: Status,
    pub mac_address: Option<Seq<char>>,
    pub ipv4_address: Option<Seq<char>>,
    pub gateway: Seq<GatewayV>,
    pub dns: Seq<Seq<char>>,
}

impl View for NetworkInterface {
    type V = NetworkInterfaceV;

    open spec fn view(&self) -> NetworkInterfaceV {
        NetworkInterfaceV {
            name: self.name@,
            interface_type: self.interface_type,
            status: self.status,
            mac_address: self.mac_address.deep_view(),
            ipv4_address: self.ipv4_address.deep_view(),
            gateway: self.gateway.deep_view(),
            dns: self.dns.deep_view(),
        }
    }
}

impl DeepView for NetworkInterface {
    type V = NetworkInterfaceV;

    open spec fn deep_view(&self) -> NetworkInterfaceV {
        self.view()
    }
}

/// Copies an optional string, preserving the value exactly.
pub fn clone_opt_string(v: &Option<String>) -> (r: Option<String>)
    ensures
        r == *v,
{
    match v {
        Some(s) => Some(s.clone()),
        None => None,
    }
}

/// Copies a list of strings, preserving every element exactly.
pub fn clone_strings(v: &Vec<String>) -> (r: Vec<String>)
    ensures
        r@ == v@,
{
    let mut r: Vec<String> = Vec::new();
    let mut i: usize = 0;
    while i < v.len()
        invariant
            i <= v.len(),
            r@ == v@.subrange(0, i as int),
        decreases v.len() - i,
    {
        r.push(v[i].clone());
        assert(v@.subrange(0, i as int + 1) =~= v@.subrange(0, i as int).push(v@[i as int]));
        i += 1;
    }
    assert(v@.subrange(0, v@.len() as int) =~= v@);
    r
}

/// Copies a gateway list, preserving every entry exactly.
pub fn clone_gateways(v: &Vec<Gateway>) -> (r: Vec<Gateway>)
    ensures
        r@ == v@,
{
    let mut r: Vec<Gateway> = Vec::new();
    let mut i: usize = 0;
    while i < v.len()
        invariant
            i <= v.len(),
            r@ == v@.subrange(0, i as int),
        decreases v.len() - i,
    {
        r.push(v[i].clone());
        assert(v@.subrange(0, i as int + 1) =~= v@.subrange(0, i as int).push(v@[i as int]));
        i += 1;
    }
    assert(v@.subrange(0, v@.len() as int) =~= v@);
    r
}

impl Clone for NetworkInterface {
    fn clone(&self) -> (r: Self)
        ensures
            r@ == self@,
    {
        let r = NetworkInterface {
            name: self.name.clone(),
            interface_type: self.interface_type,
            status: self.status,
            mac_address: clone_opt_string(&self.mac_address),
            ipv4_address: clone_opt_string(&self.ipv4_address),
            gateway: clone_gateways(&self.gateway),
            dns: clone_strings(&self.dns),
        };
        proof {
            assert(r.gateway.deep_view() =~= self.gateway.deep_view());
            assert(r.dns.deep_view() =~= self.dns.deep_view());
        }
        r
    }
}

/// Copies a whole record set, preserving the view of every record.
pub fn clone_interfaces(v: &Vec<NetworkInterface>) -> (r: Vec<NetworkInterface>)
    ensures
        r.deep_view() == v.deep_view(),
{
    let mut r: Vec<NetworkInterface> = Vec::new();
    let mut i: usize = 0;
    while i < v.len()
        invariant
            i <= v.len(),
            r.deep_view() == v.deep_view().subrange(0, i as int),
        decreases v.len() - i,
    {
        let c = v[i].clone();
        let ghost prev = r.deep_view();
        let ghost cv = c.deep_view();
        r.push(c);
        assert(r.deep_view() =~= prev.push(cv));
        assert(prev.push(cv) =~= v.deep_view().subrange(0, i as int + 1));
        i += 1;
    }
    assert(v.deep_view().subrange(0, v.deep_view().len() as int) =~= v.deep_view());
    r
}

/// Decides whether a gateway is the sentinel, by its `name` field.
pub fn gateway_is_sentinel(g: &Gateway) -> (r: bool)
    ensures
        r == is_sentinel_gateway(g@),
{
    let na = na_string();
    g.name == na
}

/// Decides whether a gateway list contains a sentinel entry.
pub fn gateways_have_sentinel(gs: &Vec<Gateway>) -> (r: bool)
    ensures
        r == has_sentinel_gateway(gs.deep_view()),
{
    let mut i: usize = 0;
    while i < gs.len()
        invariant
            i <= gs.len(),
            forall|j: int| 0 <= j < i ==> !is_sentinel_gateway(gs.deep_view()[j]),
        decreases gs.len() - i,
    {
        if gateway_is_sentinel(&gs[i]) {
            assert(is_sentinel_gateway(gs.deep_view()[i as int]));
            return true;
        }
        i += 1;
    }
    false
}

/// Decides whether a DNS list contains the sentinel entry.
pub fn dns_contains_sentinel(dns: &Vec<String>) -> (r: bool)
    ensures
        r == dns_has_sentinel(dns.deep_view()),
{
    let na = na_string();
    let mut i: usize = 0;
    while i < dns.len()
        invariant
            i <= dns.len(),
            na@ == crate::model::na(),
            forall|j: int| 0 <= j < i ==> dns.deep_view()[j] != crate::model::na(),
        decreases dns.len() - i,
    {
        if dns[i] == na {
            assert(dns.deep_view()[i as int] == crate::model::na());
            return true;
        }
        i += 1;
    }
    false
}

/// Decides whether an optional address holds the sentinel text.
pub fn ipv4_sentinel(v: &Option<String>) -> (r: bool)
    ensures
        r == ipv4_is_sentinel(v.deep_view()),
{
    match v {
        Some(s) => {
            let na = na_string();
            *s == na
        },
        None => false,
    }
}

} // verus!
