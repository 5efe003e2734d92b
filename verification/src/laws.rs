//! Laws of the store's operations, stated over the spec-level models that
//! the operations' contracts use.

use vstd::prelude::*;
use crate::model::{
    GatewayV, NetworkInterfaceV,
    na, is_sentinel_gateway, has_sentinel_gateway, dns_has_sentinel, ipv4_is_sentinel,
};
use crate::store::{
    save_v, load_v, with_ipv4, fill_if_unset_v,
    merge_one_v, merge_gateways_v, first_sentinel_index, lemma_first_sentinel_in_range,
};

verus! {

/// Updating the address of the record at a valid position and then loading
/// the set back shows exactly that address there, and no other record
/// changes.
pub proof fn lemma_update_ipv4_then_load(s: Seq<NetworkInterfaceV>, i: int, v: Option<Seq<char>>)
    requires
        0 <= i < s.len(),
    ensures
        load_v(with_ipv4(s, i, v))[i].ipv4_address == v,
        load_v(with_ipv4(s, i, v)).len() == s.len(),
        forall|j: int| 0 <= j < s.len() && j != i ==> load_v(with_ipv4(s, i, v))[j] == s[j],
{
}

/// A conditional fill never touches a field that already holds real data,
/// whatever replacement values are supplied.
pub proof fn lemma_fill_if_unset_keeps_real(
    rec: NetworkInterfaceV,
    gateway: Option<Seq<GatewayV>>,
    dns: Option<Seq<Seq<char>>>,
    ipv4_address: Option<Seq<char>>,
)
    ensures
        !ipv4_is_sentinel(rec.ipv4_address) ==> fill_if_unset_v(
            rec,
            gateway,
            dns,
            ipv4_address,
        ).ipv4_address == rec.ipv4_address,
        !has_sentinel_gateway(rec.gateway) ==> fill_if_unset_v(
            rec,
            gateway,
            dns,
            ipv4_address,
        ).gateway == rec.gateway,
        !dns_has_sentinel(rec.dns) ==> fill_if_unset_v(rec, gateway, dns, ipv4_address).dns
            == rec.dns,
{
}

/// A conditional fill replaces a sentinel address with the supplied one.
pub proof fn lemma_fill_if_unset_fills_sentinel(
    rec: NetworkInterfaceV,
    gateway: Option<Seq<GatewayV>>,
    dns: Option<Seq<Seq<char>>>,
    v: Seq<char>,
)
    requires
        ipv4_is_sentinel(rec.ipv4_address),
    ensures
        fill_if_unset_v(rec, gateway, dns, Some(v)).ipv4_address == Some(v),
{
}

/// A sentinel address is replaced exactly once: after a fill with a real
/// address, a second fill leaves the first one in place.
pub proof fn lemma_fill_if_unset_fills_exactly_once(
    rec: NetworkInterfaceV,
    v: Seq<char>,
    w: Seq<char>,
)
    requires
        ipv4_is_sentinel(rec.ipv4_address),
        v != na(),
    ensures
        fill_if_unset_v(
            fill_if_unset_v(rec, None, None, Some(v)),
            None,
            None,
            Some(w),
        ).ipv4_address == Some(v),
{
}

/// Merging one incoming gateway into a list that holds a sentinel entry
/// preserves the list's length: the incoming gateway overwrites the first
/// sentinel entry in place.
pub proof fn lemma_merge_into_sentinel_keeps_len(gs: Seq<GatewayV>, g: GatewayV)
    requires
        has_sentinel_gateway(gs),
    ensures
        merge_gateways_v(gs, seq![g]).len() == gs.len(),
        merge_gateways_v(gs, seq![g]) == gs.update(first_sentinel_index(gs), g),
{
    lemma_first_sentinel_in_range(gs);
    assert(seq![g][0] == g);
    assert(seq![g].drop_first() =~= Seq::<GatewayV>::empty());
    assert(merge_gateways_v(gs, seq![g]) == merge_gateways_v(merge_one_v(gs, g), seq![g].drop_first()));
}

/// Merging into a list with no sentinel entry only appends: the list grows
/// by exactly the number of (non-sentinel) incoming gateways.
pub proof fn lemma_merge_appends_when_no_sentinel(gs: Seq<GatewayV>, incoming: Seq<GatewayV>)
    requires
        !has_sentinel_gateway(gs),
        forall|k: int| 0 <= k < incoming.len() ==> !is_sentinel_gateway(incoming[k]),
    ensures
        merge_gateways_v(gs, incoming).len() == gs.len() + incoming.len(),
    decreases incoming.len(),
{
    if incoming.len() == 0 {
    } else {
        let pushed = gs.push(incoming[0]);
        assert forall|i: int| 0 <= i < pushed.len() implies !is_sentinel_gateway(pushed[i]) by {
            if i < gs.len() {
                assert(pushed[i] == gs[i]);
            } else {
                assert(pushed[i] == incoming[0]);
            }
        }
        assert(!has_sentinel_gateway(pushed));
        assert(merge_one_v(gs, incoming[0]) == pushed);
        assert forall|k: int| 0 <= k < incoming.drop_first().len() implies !is_sentinel_gateway(
            incoming.drop_first()[k],
        ) by {
            assert(incoming.drop_first()[k] == incoming[k + 1]);
        }
        lemma_merge_appends_when_no_sentinel(pushed, incoming.drop_first());
    }
}

/// Saving a record set and loading it back yields the same record sequence,
/// whatever the medium held before.
pub proof fn lemma_save_load_round_trip(
    medium: Seq<NetworkInterfaceV>,
    records: Seq<NetworkInterfaceV>,
)
    ensures
        load_v(save_v(medium, records)) == records,
{
}

} // verus!
