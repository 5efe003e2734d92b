//! The reconciliation store: owns a persisted record set and applies
//! whole-field updates, sentinel-aware conditional fills, and gateway-list
//! replacement, merge, and deletion against it.
//!
//! The store holds the persisted medium as an in-memory record set; reading
//! and writing a real medium (a file, a database) is the caller's concern.
//! Every operation is a full read-modify-write of that set.

use vstd::prelude::*;
use crate::model::{
    Gateway, GatewayV, NetworkInterface, NetworkInterfaceV,
    na, na_string, is_sentinel_gateway, has_sentinel_gateway, dns_has_sentinel, ipv4_is_sentinel,
    gateway_is_sentinel, gateways_have_sentinel, dns_contains_sentinel, ipv4_sentinel,
    clone_gateways, clone_interfaces,
};

verus! {

/// Why a store operation failed.
#[derive(PartialEq, Eq, Structural, Clone, Copy, Debug)]
pub enum StoreError {
    /// An interface index or gateway position was out of range.
    IndexError,
    /// The persistence medium could not be read or written.  The store's own
    /// operations never produce this; callers that sit between the store and
    /// a real medium report their failures with it.
    PersistenceError,
}

/// What the medium holds after a record set is saved to it.
pub open spec fn save_v(
    medium: Seq<NetworkInterfaceV>,
    records: Seq<NetworkInterfaceV>,
) -> Seq<NetworkInterfaceV> {
    records
}

/// What loading returns, given what the medium holds.
pub open spec fn load_v(medium: Seq<NetworkInterfaceV>) -> Seq<NetworkInterfaceV> {
    medium
}

/// The record set with the address of the record at `i` replaced by `v`.
pub open spec fn with_ipv4(
    s: Seq<NetworkInterfaceV>,
    i: int,
    v: Option<Seq<char>>,
) -> Seq<NetworkInterfaceV>
    recommends
        0 <= i < s.len(),
{
    s.update(i, NetworkInterfaceV { ipv4_address: v, ..s[i] })
}

/// The record set with the gateway list of the record at `i` replaced by `gs`.
pub open spec fn with_gateways(
    s: Seq<NetworkInterfaceV>,
    i: int,
    gs: Seq<GatewayV>,
) -> Seq<NetworkInterfaceV>
    recommends
        0 <= i < s.len(),
{
    s.update(i, NetworkInterfaceV { gateway: gs, ..s[i] })
}

/// One record after a conditional fill: each supplied field replaces the
/// current one only when the current value is entirely the sentinel; fields
/// already holding real data stay untouched.
pub open spec fn fill_if_unset_v(
    rec: NetworkInterfaceV,
    gateway: Option<Seq<GatewayV>>,
    dns: Option<Seq<Seq<char>>>,
    ipv4_address: Option<Seq<char>>,
) -> NetworkInterfaceV {
    let gw = match gateway {
        Some(gs) => if has_sentinel_gateway(rec.gateway) {
            gs
        } else {
            rec.gateway
        },
        None => rec.gateway,
    };
    let d = match dns {
        Some(ds) => if dns_has_sentinel(rec.dns) {
            ds
        } else {
            rec.dns
        },
        None => rec.dns,
    };
    let p = match ipv4_address {
        Some(ip) => if ipv4_is_sentinel(rec.ipv4_address) {
            Some(ip)
        } else {
            rec.ipv4_address
        },
        None => rec.ipv4_address,
    };
    NetworkInterfaceV { gateway: gw, dns: d, ipv4_address: p, ..rec }
}

/// Position of the first sentinel entry in a gateway list.
pub open spec fn first_sentinel_index(gs: Seq<GatewayV>) -> int
    decreases gs.len(),
{
    if gs.len() == 0 {
        0
    } else if is_sentinel_gateway(gs[0]) {
        0
    } else {
        1 + first_sentinel_index(gs.drop_first())
    }
}

/// One merge step: the incoming gateway overwrites the first sentinel entry
/// in place, or is appended when no sentinel entry is left.
pub open spec fn merge_one_v(gs: Seq<GatewayV>, g: GatewayV) -> Seq<GatewayV> {
    if has_sentinel_gateway(gs) {
        gs.update(first_sentinel_index(gs), g)
    } else {
        gs.push(g)
    }
}

/// A gateway list after merging the incoming gateways one at a time, in
/// order.
pub open spec fn merge_gateways_v(gs: Seq<GatewayV>, incoming: Seq<GatewayV>) -> Seq<GatewayV>
    decreases incoming.len(),
{
    if incoming.len() == 0 {
        gs
    } else {
        merge_gateways_v(merge_one_v(gs, incoming[0]), incoming.drop_first())
    }
}

/// A gateway list after deleting the entries at the given positions, each
/// position taken against the list as it stands when its turn comes; `None`
/// when a position is out of range at its turn.
pub open spec fn delete_gateways_v(gs: Seq<GatewayV>, positions: Seq<int>) -> Option<Seq<GatewayV>>
    decreases positions.len(),
{
    if positions.len() == 0 {
        Some(gs)
    } else if 0 <= positions[0] < gs.len() {
        delete_gateways_v(gs.remove(positions[0]), positions.drop_first())
    } else {
        None
    }
}

/// A positions list as mathematical integers.
pub open spec fn positions_v(p: Seq<usize>) -> Seq<int> {
    p.map_values(|u: usize| u as int)
}

/// A sentinel entry at `j`, with none before it, is the first one.
pub proof fn lemma_first_sentinel_index_at(gs: Seq<GatewayV>, j: int)
    requires
        0 <= j < gs.len(),
        is_sentinel_gateway(gs[j]),
        forall|t: int| 0 <= t < j ==> !is_sentinel_gateway(gs[t]),
    ensures
        first_sentinel_index(gs) == j,
    decreases j,
{
    if j == 0 {
    } else {
        assert(!is_sentinel_gateway(gs[0]));
        assert(gs.drop_first()[j - 1] == gs[j]);
        assert forall|t: int| 0 <= t < j - 1 implies !is_sentinel_gateway(
            gs.drop_first()[t],
        ) by {
            assert(gs.drop_first()[t] == gs[t + 1]);
        }
        lemma_first_sentinel_index_at(gs.drop_first(), j - 1);
    }
}

/// In a list that contains a sentinel entry, the first sentinel position is
/// in range, holds a sentinel, and nothing before it is one.
pub proof fn lemma_first_sentinel_in_range(gs: Seq<GatewayV>)
    requires
        has_sentinel_gateway(gs),
    ensures
        0 <= first_sentinel_index(gs) < gs.len(),
        is_sentinel_gateway(gs[first_sentinel_index(gs)]),
        forall|t: int| 0 <= t < first_sentinel_index(gs) ==> !is_sentinel_gateway(gs[t]),
    decreases gs.len(),
{
    let i: int = choose|i: int| 0 <= i < gs.len() && is_sentinel_gateway(gs[i]);
    if is_sentinel_gateway(gs[0]) {
    } else {
        assert(gs.drop_first()[i - 1] == gs[i]);
        assert(has_sentinel_gateway(gs.drop_first()));
        lemma_first_sentinel_in_range(gs.drop_first());
        let f: int = first_sentinel_index(gs.drop_first());
        assert(gs[1 + f] == gs.drop_first()[f]);
        assert forall|t: int| 0 <= t < 1 + f implies !is_sentinel_gateway(gs[t]) by {
            if t > 0 {
                assert(gs[t] == gs.drop_first()[t - 1]);
            }
        }
    }
}

/// Merging one more incoming gateway is one merge step on the merged list.
pub proof fn lemma_merge_snoc(gs: Seq<GatewayV>, incoming: Seq<GatewayV>, g: GatewayV)
    ensures
        merge_gateways_v(gs, incoming.push(g)) == merge_one_v(merge_gateways_v(gs, incoming), g),
    decreases incoming.len(),
{
    let s = incoming.push(g);
    if incoming.len() == 0 {
        assert(s[0] == g);
        assert(s.drop_first() =~= Seq::<GatewayV>::empty());
        assert(merge_gateways_v(gs, s) == merge_gateways_v(merge_one_v(gs, g), s.drop_first()));
        assert(merge_gateways_v(merge_one_v(gs, g), s.drop_first()) == merge_one_v(gs, g));
        assert(merge_gateways_v(gs, incoming) == gs);
    } else {
        assert(s[0] == incoming[0]);
        assert(s.drop_first() =~= incoming.drop_first().push(g));
        assert(merge_gateways_v(gs, s) == merge_gateways_v(merge_one_v(gs, incoming[0]), s.drop_first()));
        lemma_merge_snoc(merge_one_v(gs, incoming[0]), incoming.drop_first(), g);
        assert(merge_gateways_v(gs, incoming) == merge_gateways_v(
            merge_one_v(gs, incoming[0]),
            incoming.drop_first(),
        ));
    }
}

/// Deleting at a positions list splits at any point `k`: first the positions
/// before `k`, then the rest against the intermediate list.
pub proof fn lemma_delete_split(gs: Seq<GatewayV>, positions: Seq<int>, k: int)
    requires
        0 <= k <= positions.len(),
    ensures
        delete_gateways_v(gs, positions) == (match delete_gateways_v(gs, positions.take(k)) {
            Some(mid) => delete_gateways_v(mid, positions.skip(k)),
            None => None::<Seq<GatewayV>>,
        }),
    decreases k,
{
    if k == 0 {
        assert(positions.take(0) =~= Seq::<int>::empty());
        assert(positions.skip(0) =~= positions);
    } else {
        assert(positions.take(k)[0] == positions[0]);
        if 0 <= positions[0] < gs.len() {
            lemma_delete_split(gs.remove(positions[0]), positions.drop_first(), k - 1);
            assert(positions.take(k).drop_first() =~= positions.drop_first().take(k - 1));
            assert(positions.skip(k) =~= positions.drop_first().skip(k - 1));
        }
    }
}

/// Finds the position of the first sentinel entry in a gateway list.
pub fn find_first_sentinel(gs: &Vec<Gateway>) -> (r: Option<usize>)
    ensures
        (match r {
            Some(j) => j < gs.deep_view().len() && has_sentinel_gateway(gs.deep_view())
                && first_sentinel_index(gs.deep_view()) == j as int,
            None => !has_sentinel_gateway(gs.deep_view()),
        }),
{
    let mut i: usize = 0;
    while i < gs.len()
        invariant
            i <= gs.len(),
            forall|t: int| 0 <= t < i ==> !is_sentinel_gateway(gs.deep_view()[t]),
        decreases gs.len() - i,
    {
        if gateway_is_sentinel(&gs[i]) {
            proof {
                assert(is_sentinel_gateway(gs.deep_view()[i as int]));
                lemma_first_sentinel_index_at(gs.deep_view(), i as int);
            }
            return Some(i);
        }
        i += 1;
    }
    None
}

/// Merges incoming gateways into a list: each incoming gateway overwrites
/// the first sentinel entry in place, or is appended when none is left, so
/// a list that started as a single sentinel fills up without reordering.
pub fn merge_gateway_lists(gs: Vec<Gateway>, incoming: &Vec<Gateway>) -> (r: Vec<Gateway>)
    ensures
        r.deep_view() == merge_gateways_v(gs.deep_view(), incoming.deep_view()),
{
    let ghost gs0 = gs.deep_view();
    let ghost inc = incoming.deep_view();
    let mut result = gs;
    let mut k: usize = 0;
    while k < incoming.len()
        invariant
            k <= incoming.len(),
            inc == incoming.deep_view(),
            result.deep_view() == merge_gateways_v(gs0, inc.take(k as int)),
        decreases incoming.len() - k,
    {
        let g = incoming[k].clone();
        let ghost gv = g@;
        let ghost before = result.deep_view();
        match find_first_sentinel(&result) {
            Some(j) => {
                let slot = &mut result[j];
                *slot = g;
                proof {
                    assert(result.deep_view() =~= before.update(j as int, gv));
                }
            },
            None => {
                result.push(g);
                proof {
                    assert(result.deep_view() =~= before.push(gv));
                }
            },
        }
        proof {
            assert(gv == inc[k as int]);
            assert(inc.take(k as int + 1) =~= inc.take(k as int).push(inc[k as int]));
            lemma_merge_snoc(gs0, inc.take(k as int), inc[k as int]);
        }
        k += 1;
    }
    proof {
        assert(inc.take(incoming.len() as int) =~= inc);
    }
    result
}

/// Deletes the entries at the given positions, each taken against the list
/// as it stands when its turn comes; yields `None` — and deletes nothing —
/// as soon as a position is out of range at its turn.
#[verifier::loop_isolation(false)]
pub fn delete_gateway_positions(gs: Vec<Gateway>, positions: &Vec<usize>) -> (r: Option<
    Vec<Gateway>,
>)
    ensures
        (match r {
            Some(v) => delete_gateways_v(gs.deep_view(), positions_v(positions@)) == Some(
                v.deep_view(),
            ),
            None => delete_gateways_v(gs.deep_view(), positions_v(positions@)) is None,
        }),
{
    let ghost gs0 = gs.deep_view();
    let ghost ps = positions_v(positions@);
    let mut result = gs;
    let mut k: usize = 0;
    while k < positions.len()
        invariant
            k <= positions.len(),
            ps == positions_v(positions@),
            delete_gateways_v(gs0, ps.take(k as int)) == Some(result.deep_view()),
        decreases positions.len() - k,
    {
        let ghost before = result.deep_view();
        let p: usize = positions[k];
        proof {
            assert(ps[k as int] == positions@[k as int] as int);
            assert(before.len() == result@.len());
        }
        if p >= result.len() {
            proof {
                lemma_delete_split(gs0, ps, k as int);
                assert(ps.len() == positions@.len());
                assert(ps.skip(k as int).len() == ps.len() - k);
                assert(ps.skip(k as int)[0] == ps[k as int]);
                assert(delete_gateways_v(gs0, ps) == delete_gateways_v(
                    before,
                    ps.skip(k as int),
                ));
                assert(delete_gateways_v(before, ps.skip(k as int)) is None);
            }
            return None;
        }
        let _removed = result.remove(p);
        proof {
            assert(result.deep_view() =~= before.remove(p as int));
            lemma_delete_split(gs0, ps.take(k as int + 1), k as int);
            assert(ps.take(k as int + 1).take(k as int) =~= ps.take(k as int));
            let ghost tail = ps.take(k as int + 1).skip(k as int);
            assert(tail.len() == 1);
            assert(tail[0] == ps[k as int]);
            assert(tail.drop_first() =~= Seq::<int>::empty());
            assert(0 <= tail[0] < before.len());
            assert(delete_gateways_v(before, tail) == delete_gateways_v(
                before.remove(tail[0]),
                tail.drop_first(),
            ));
            assert(delete_gateways_v(before.remove(tail[0]), tail.drop_first()) == Some(
                before.remove(p as int),
            ));
        }
        k += 1;
    }
    proof {
        assert(ps.take(positions.len() as int) =~= ps);
    }
    Some(result)
}

/// The reconciliation store.  Its view is the record sequence the medium
/// holds.
pub struct Store {
    pub records: Vec<NetworkInterface>,
}

impl View for Store {
    type V = Seq<NetworkInterfaceV>;

    open spec fn view(&self) -> Seq<NetworkInterfaceV> {
        self.records.deep_view()
    }
}

impl Store {
    /// Creates a store whose medium holds no records yet.
    pub fn new() -> (s: Store)
        ensures
            s@ == Seq::<NetworkInterfaceV>::empty(),
    {
        let s = Store { records: Vec::new() };
        proof {
            assert(s@ =~= Seq::<NetworkInterfaceV>::empty());
        }
        s
    }

    /// Adopts an already-loaded record set as the persisted medium.
    pub fn from_records(records: Vec<NetworkInterface>) -> (s: Store)
        ensures
            s@ == records.deep_view(),
    {
        Store { records }
    }

    /// Returns the persisted record set; an empty medium yields an empty
    /// sequence.
    pub fn load(&self) -> (r: Vec<NetworkInterface>)
        ensures
            r.deep_view() == load_v(self@),
    {
        clone_interfaces(&self.records)
    }

    /// Overwrites the whole medium with the given record set.
    pub fn save(&mut self, records: Vec<NetworkInterface>)
        ensures
            final(self)@ == save_v(old(self)@, records.deep_view()),
    {
        self.records = records;
    }

    /// Writes one record back at its position.
    fn set_record(&mut self, index: usize, record: NetworkInterface)
        requires
            index < old(self)@.len(),
        ensures
            final(self)@ == old(self)@.update(index as int, record@),
    {
        let slot = &mut self.records[index];
        *slot = record;
        proof {
            assert(self.records.deep_view() =~= old(self).records.deep_view().update(
                index as int,
                record@,
            ));
        }
    }

    /// Sets the address of the record at `index` to the given value, which
    /// may also be `None` (absent).
    pub fn update_ipv4_address(&mut self, index: usize, ipv4_address: Option<String>) -> (r: Result<
        (),
        StoreError,
    >)
        ensures
            index < old(self)@.len() ==> r == Ok::<(), StoreError>(()) && final(self)@ == with_ipv4(
                old(self)@,
                index as int,
                ipv4_address.deep_view(),
            ),
            index >= old(self)@.len() ==> r == Err::<(), StoreError>(StoreError::IndexError)
                && final(self)@ == old(self)@,
    {
        if index >= self.records.len() {
            return Err(StoreError::IndexError);
        }
        let mut record = self.records[index].clone();
        record.ipv4_address = ipv4_address;
        self.set_record(index, record);
        Ok(())
    }

    /// Clears the address of the record at `index`: clearing is modeled as
    /// setting the sentinel, not as removing the field.
    pub fn delete_ipv4_address(&mut self, index: usize) -> (r: Result<(), StoreError>)
        ensures
            index < old(self)@.len() ==> r == Ok::<(), StoreError>(()) && final(self)@ == with_ipv4(
                old(self)@,
                index as int,
                Some(na()),
            ),
            index >= old(self)@.len() ==> r == Err::<(), StoreError>(StoreError::IndexError)
                && final(self)@ == old(self)@,
    {
        if index >= self.records.len() {
            return Err(StoreError::IndexError);
        }
        let mut record = self.records[index].clone();
        record.ipv4_address = Some(na_string());
        self.set_record(index, record);
        Ok(())
    }

    /// Fills the supplied fields of the record at `index`, each only if its
    /// current value is entirely the sentinel.  Real data is never
    /// overwritten.
    pub fn add_if_na(
        &mut self,
        index: usize,
        gateway: Option<Vec<Gateway>>,
        dns: Option<Vec<String>>,
        ipv4_address: Option<String>,
    ) -> (r: Result<(), StoreError>)
        ensures
            index < old(self)@.len() ==> r == Ok::<(), StoreError>(()) && final(self)@ == old(
                self,
            )@.update(
                index as int,
                fill_if_unset_v(
                    old(self)@[index as int],
                    gateway.deep_view(),
                    dns.deep_view(),
                    ipv4_address.deep_view(),
                ),
            ),
            index >= old(self)@.len() ==> r == Err::<(), StoreError>(StoreError::IndexError)
                && final(self)@ == old(self)@,
    {
        if index >= self.records.len() {
            return Err(StoreError::IndexError);
        }
        let mut record = self.records[index].clone();
        match gateway {
            Some(gs) => {
                if gateways_have_sentinel(&record.gateway) {
                    record.gateway = gs;
                }
            },
            None => {},
        }
        match dns {
            Some(ds) => {
                if dns_contains_sentinel(&record.dns) {
                    record.dns = ds;
                }
            },
            None => {},
        }
        match ipv4_address {
            Some(ip) => {
                if ipv4_sentinel(&record.ipv4_address) {
                    record.ipv4_address = Some(ip);
                }
            },
            None => {},
        }
        self.set_record(index, record);
        Ok(())
    }

    /// Unconditionally replaces the gateway list of the record at `index`.
    pub fn save_gateways(&mut self, index: usize, gateways: Vec<Gateway>) -> (r: Result<
        (),
        StoreError,
    >)
        ensures
            index < old(self)@.len() ==> r == Ok::<(), StoreError>(()) && final(self)@
                == with_gateways(old(self)@, index as int, gateways.deep_view()),
            index >= old(self)@.len() ==> r == Err::<(), StoreError>(StoreError::IndexError)
                && final(self)@ == old(self)@,
    {
        if index >= self.records.len() {
            return Err(StoreError::IndexError);
        }
        let mut record = self.records[index].clone();
        record.gateway = gateways;
        self.set_record(index, record);
        Ok(())
    }

    /// Merges incoming gateways into the gateway list of the record at
    /// `index`: each incoming gateway overwrites the first sentinel entry in
    /// place, or is appended when none is left.
    pub fn add_gateways(&mut self, index: usize, new_gateways: Vec<Gateway>) -> (r: Result<
        (),
        StoreError,
    >)
        ensures
            index < old(self)@.len() ==> r == Ok::<(), StoreError>(()) && final(self)@
                == with_gateways(
                old(self)@,
                index as int,
                merge_gateways_v(old(self)@[index as int].gateway, new_gateways.deep_view()),
            ),
            index >= old(self)@.len() ==> r == Err::<(), StoreError>(StoreError::IndexError)
                && final(self)@ == old(self)@,
    {
        if index >= self.records.len() {
            return Err(StoreError::IndexError);
        }
        let current = clone_gateways(&self.records[index].gateway);
        proof {
            assert(current.deep_view() =~= old(self)@[index as int].gateway);
        }
        let merged = merge_gateway_lists(current, &new_gateways);
        let mut record = self.records[index].clone();
        record.gateway = merged;
        self.set_record(index, record);
        Ok(())
    }

    /// Removes the gateway entries of the record at `index` at the given
    /// positions, each taken against the list as it stands when its turn
    /// comes (callers hand positions in descending order so earlier removals
    /// do not shift the meaning of later ones).  If any position is out of
    /// range at its turn, nothing is removed at all.
    pub fn delete_gateways(&mut self, index: usize, gateway_indices: Vec<usize>) -> (r: Result<
        (),
        StoreError,
    >)
        ensures
            index < old(self)@.len() ==> (match delete_gateways_v(
                old(self)@[index as int].gateway,
                positions_v(gateway_indices@),
            ) {
                Some(gs) => r == Ok::<(), StoreError>(()) && final(self)@ == with_gateways(
                    old(self)@,
                    index as int,
                    gs,
                ),
                None => r == Err::<(), StoreError>(StoreError::IndexError) && final(self)@ == old(
                    self,
                )@,
            }),
            index >= old(self)@.len() ==> r == Err::<(), StoreError>(StoreError::IndexError)
                && final(self)@ == old(self)@,
    {
        if index >= self.records.len() {
            return Err(StoreError::IndexError);
        }
        let current = clone_gateways(&self.records[index].gateway);
        proof {
            assert(current.deep_view() =~= old(self)@[index as int].gateway);
        }
        match delete_gateway_positions(current, &gateway_indices) {
            Some(remaining) => {
                let mut record = self.records[index].clone();
                record.gateway = remaining;
                self.set_record(index, record);
                Ok(())
            },
            None => Err(StoreError::IndexError),
        }
    }
}

} // verus!
