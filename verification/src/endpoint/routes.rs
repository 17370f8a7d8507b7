//! Which connection a datagram belongs to.
//!
//! Two tables lead from the destination connection identifier of a packet to a
//! connection, which is known here by a number: one for the identifiers that clients
//! choose for their first packets, one for the identifiers issued here.
use crate::cid::{CidEvent, CidEventView, LOCAL_CID_LEN};
use crate::coding::u32_at;
use crate::packet::{lemma_take_u32, u32_bytes};
use crate::types::same_bytes;
use std::collections::HashMap;
use vstd::prelude::*;

verus! {

/// A connection, as the routing tables know it.
pub type ConnHandle = u64;

/// A route of the first table.
#[derive(Debug)]
struct InitialRoute {
    dcid: Vec<u8>,
    conn: ConnHandle,
}

/// Routes of clients' first packets, by the destination identifier they chose.
#[derive(Debug)]
pub struct InitialRoutes {
    routes: Vec<InitialRoute>,
}

/// Whether route `i` is the one of `dcid`.
spec fn is_route(routes: Seq<InitialRoute>, dcid: Seq<u8>, i: int) -> bool {
    0 <= i < routes.len() && routes[i].dcid@ == dcid
}

/// The routes as a map.
spec fn route_map(routes: Seq<InitialRoute>) -> Map<Seq<u8>, ConnHandle> {
    Map::new(
        |dcid: Seq<u8>| exists|i: int| is_route(routes, dcid, i),
        |dcid: Seq<u8>| routes[choose|i: int| is_route(routes, dcid, i)].conn,
    )
}

impl View for InitialRoutes {
    type V = Map<Seq<u8>, ConnHandle>;

    closed spec fn view(&self) -> Map<Seq<u8>, ConnHandle> {
        route_map(self.routes@)
    }
}

/// No identifier has two routes.
spec fn distinct(routes: Seq<InitialRoute>) -> bool {
    forall|i: int, j: int|
        0 <= i < j < routes.len() ==> (#[trigger] routes[i]).dcid@ != (#[trigger] routes[j]).dcid@
}

/// A route is found under its identifier.
proof fn lemma_route(routes: Seq<InitialRoute>, i: int)
    requires
        distinct(routes),
        0 <= i < routes.len(),
    ensures
        route_map(routes).contains_key(routes[i].dcid@),
        route_map(routes)[routes[i].dcid@] == routes[i].conn,
{
    let dcid = routes[i].dcid@;
    assert(is_route(routes, dcid, i));
    let j = choose|j: int| is_route(routes, dcid, j);
    assert(i == j);
}

impl InitialRoutes {
    /// No identifier has two routes.
    pub closed spec fn wf(&self) -> bool {
        distinct(self.routes@)
    }

    /// No routes.
    pub fn new() -> (r: InitialRoutes)
        ensures
            r.wf(),
            r@ == Map::<Seq<u8>, ConnHandle>::empty(),
    {
        let r = InitialRoutes { routes: Vec::new() };
        assert(r@ =~= Map::empty());
        r
    }

    /// Where the route of `dcid` stands, or how many there are if it has none.
    fn position(&self, dcid: &[u8]) -> (i: usize)
        ensures
            i <= self.routes@.len(),
            i < self.routes@.len() ==> self.routes@[i as int].dcid@ == dcid@,
            i == self.routes@.len() ==> !self@.contains_key(dcid@),
    {
        let mut i: usize = 0;
        while i < self.routes.len()
            invariant
                i <= self.routes@.len(),
                forall|j: int| 0 <= j < i ==> (#[trigger] self.routes@[j]).dcid@ != dcid@,
            decreases self.routes@.len() - i,
        {
            if same_bytes(self.routes[i].dcid.as_slice(), dcid) {
                return i;
            }
            i = i + 1;
        }
        i
    }

    /// The connection that packets to `dcid` belong to.
    pub fn get(&self, dcid: &[u8]) -> (conn: Option<ConnHandle>)
        requires
            self.wf(),
        ensures
            conn == if self@.contains_key(dcid@) {
                Some(self@[dcid@])
            } else {
                None
            },
    {
        let i = self.position(dcid);
        if i < self.routes.len() {
            proof {
                lemma_route(self.routes@, i as int);
            }
            Some(self.routes[i].conn)
        } else {
            None
        }
    }

    /// Whether packets to `dcid` have a route.
    pub fn contains_key(&self, dcid: &[u8]) -> (known: bool)
        requires
            self.wf(),
        ensures
            known == self@.contains_key(dcid@),
    {
        let i = self.position(dcid);
        proof {
            if i < self.routes@.len() {
                lemma_route(self.routes@, i as int);
            }
        }
        i < self.routes.len()
    }

    /// Whether there are no routes.
    pub fn is_empty(&self) -> (empty: bool)
        requires
            self.wf(),
        ensures
            empty == (self@ == Map::<Seq<u8>, ConnHandle>::empty()),
    {
        proof {
            if self.routes@.len() > 0 {
                lemma_route(self.routes@, 0);
            } else {
                assert(self@ =~= Map::empty());
            }
        }
        self.routes.len() == 0
    }

    /// Packets to `dcid` belong to `conn` from now on.
    pub fn insert(&mut self, dcid: Vec<u8>, conn: ConnHandle)
        requires
            old(self).wf(),
        ensures
            final(self).wf(),
            final(self)@ == old(self)@.insert(dcid@, conn),
    {
        let ghost before = self.routes@;
        let ghost key = dcid@;
        let i = self.position(dcid.as_slice());
        if i < self.routes.len() {
            self.routes.set(i, InitialRoute { dcid, conn });
        } else {
            self.routes.push(InitialRoute { dcid, conn });
        }
        proof {
            let after = self.routes@;
            if i == before.len() {
                assert forall|j: int| 0 <= j < before.len() implies (#[trigger] before[j]).dcid@
                    != key by {
                    lemma_route(before, j);
                }
            }
            assert(distinct(after));
            assert forall|k: Seq<u8>| #[trigger]
                route_map(after).contains_key(k) <==> route_map(before).insert(
                    key,
                    conn,
                ).contains_key(k) by {
                lemma_route(after, i as int);
                if route_map(after).contains_key(k) {
                    let j = choose|j: int| is_route(after, k, j);
                    if k != key {
                        assert(before[j].dcid@ == k);
                        lemma_route(before, j);
                    }
                }
                if route_map(before).contains_key(k) && k != key {
                    let j = choose|j: int| is_route(before, k, j);
                    assert(after[j].dcid@ == k);
                    lemma_route(after, j);
                }
            }
            assert forall|k: Seq<u8>| #[trigger] route_map(after).contains_key(k) implies route_map(
                after,
            )[k] == route_map(before).insert(key, conn)[k] by {
                let j = choose|j: int| is_route(after, k, j);
                lemma_route(after, j);
                lemma_route(after, i as int);
                if k != key {
                    assert(j != i);
                    assert(before[j].dcid@ == k);
                    lemma_route(before, j);
                }
            }
            assert(route_map(after) =~= route_map(before).insert(key, conn));
        }
    }

    /// Packets to `dcid` have no route any more.
    pub fn remove(&mut self, dcid: &[u8])
        requires
            old(self).wf(),
        ensures
            final(self).wf(),
            final(self)@ == old(self)@.remove(dcid@),
    {
        let ghost before = self.routes@;
        let i = self.position(dcid);
        if i >= self.routes.len() {
            assert(self@ =~= old(self)@.remove(dcid@));
            return ;
        }
        let _ = self.routes.remove(i);
        proof {
            let after = self.routes@;
            assert(after =~= before.remove(i as int));
            assert(distinct(after));
            assert forall|k: Seq<u8>| #[trigger]
                route_map(after).contains_key(k) <==> route_map(before).remove(
                    dcid@,
                ).contains_key(k) by {
                if route_map(after).contains_key(k) {
                    let j = choose|j: int| is_route(after, k, j);
                    let b = if j < i {
                        j
                    } else {
                        j + 1
                    };
                    assert(before[b] == after[j]);
                    lemma_route(before, b);
                }
                if route_map(before).contains_key(k) && k != dcid@ {
                    let b = choose|b: int| is_route(before, k, b);
                    let j = if b < i {
                        b
                    } else {
                        b - 1
                    };
                    assert(before[b] == after[j]);
                    lemma_route(after, j);
                }
            }
            assert forall|k: Seq<u8>| #[trigger] route_map(after).contains_key(k) implies route_map(
                after,
            )[k] == route_map(before).remove(dcid@)[k] by {
                let j = choose|j: int| is_route(after, k, j);
                lemma_route(after, j);
                let b = if j < i {
                    j
                } else {
                    j + 1
                };
                assert(before[b] == after[j]);
                lemma_route(before, b);
            }
            assert(route_map(after) =~= route_map(before).remove(dcid@));
        }
    }
}

/// Eight bytes as a number.
spec fn cid_number(cid: Seq<u8>) -> u64 {
    (u32_at(cid) * 0x1_0000_0000 + u32_at(cid.skip(4))) as u64
}

/// Different identifiers have different numbers.
proof fn lemma_cid_number(a: Seq<u8>, b: Seq<u8>)
    requires
        a.len() == LOCAL_CID_LEN,
        b.len() == LOCAL_CID_LEN,
        cid_number(a) == cid_number(b),
    ensures
        a == b,
{
    assert(u32_at(a) == u32_at(b) && u32_at(a.skip(4)) == u32_at(b.skip(4)));
    assert(a[0] == b[0] && a[1] == b[1] && a[2] == b[2] && a[3] == b[3]);
    assert(a.skip(4)[0] == b.skip(4)[0] && a.skip(4)[1] == b.skip(4)[1] && a.skip(4)[2] == b.skip(
        4,
    )[2] && a.skip(4)[3] == b.skip(4)[3]);
    assert(a =~= b);
}

/// Every number is that of an identifier.
proof fn lemma_number_has_cid(n: u64) -> (cid: Seq<u8>)
    ensures
        cid.len() == LOCAL_CID_LEN,
        cid_number(cid) == n,
{
    let hi = (n / 0x1_0000_0000) as u32;
    let lo = (n % 0x1_0000_0000) as u32;
    let cid = u32_bytes(hi) + u32_bytes(lo);
    lemma_take_u32(hi, u32_bytes(lo));
    lemma_take_u32(lo, Seq::empty());
    assert(u32_bytes(lo) + Seq::<u8>::empty() =~= u32_bytes(lo));
    cid
}

/// Routes of packets to identifiers issued here.
#[derive(Debug)]
pub struct LocalCidRoutes {
    routes: HashMap<u64, ConnHandle>,
}

impl View for LocalCidRoutes {
    type V = Map<Seq<u8>, ConnHandle>;

    closed spec fn view(&self) -> Map<Seq<u8>, ConnHandle> {
        Map::new(
            |cid: Seq<u8>|
                cid.len() == LOCAL_CID_LEN && self.routes@.contains_key(cid_number(cid)),
            |cid: Seq<u8>| self.routes@[cid_number(cid)],
        )
    }
}

/// The number of an identifier issued here.
fn number_of(cid: &[u8]) -> (n: u64)
    requires
        cid@.len() == LOCAL_CID_LEN,
    ensures
        n == cid_number(cid@),
{
    let hi: u32 = cid[0] as u32 * 0x100_0000 + cid[1] as u32 * 0x1_0000 + cid[2] as u32 * 0x100
        + cid[3] as u32;
    let lo: u32 = cid[4] as u32 * 0x100_0000 + cid[5] as u32 * 0x1_0000 + cid[6] as u32 * 0x100
        + cid[7] as u32;
    hi as u64 * 0x1_0000_0000 + lo as u64
}

impl LocalCidRoutes {
    /// Every identifier issued here has the same length.
    pub proof fn lemma_keys(&self)
        ensures
            forall|cid: Seq<u8>| #[trigger] self@.contains_key(cid) ==> cid.len() == LOCAL_CID_LEN,
    {
    }

    /// No routes.
    pub fn new() -> (r: LocalCidRoutes)
        ensures
            r@ == Map::<Seq<u8>, ConnHandle>::empty(),
    {
        let r = LocalCidRoutes { routes: HashMap::new() };
        assert(r@ =~= Map::empty());
        r
    }

    /// The connection that packets to `cid` belong to.
    pub fn get(&self, cid: &[u8]) -> (conn: Option<ConnHandle>)
        ensures
            conn == if self@.contains_key(cid@) {
                Some(self@[cid@])
            } else {
                None
            },
    {
        broadcast use vstd::std_specs::hash::group_hash_axioms;

        if cid.len() != LOCAL_CID_LEN {
            return None;
        }
        match self.routes.get(&number_of(cid)) {
            Some(conn) => Some(*conn),
            None => None,
        }
    }

    /// Whether packets to `cid` have a route.
    pub fn contains_key(&self, cid: &[u8]) -> (known: bool)
        ensures
            known == self@.contains_key(cid@),
    {
        self.get(cid).is_some()
    }

    /// Whether there are no routes.
    pub fn is_empty(&self) -> (empty: bool)
        ensures
            empty == (self@ == Map::<Seq<u8>, ConnHandle>::empty()),
    {
        broadcast use vstd::std_specs::hash::group_hash_axioms;

        proof {
            if self.routes@ =~= Map::empty() {
                assert(self@ =~= Map::empty());
            } else {
                let n = choose|n: u64| self.routes@.contains_key(n);
                let cid = lemma_number_has_cid(n);
                assert(self@.contains_key(cid));
            }
        }
        self.routes.is_empty()
    }

    /// Packets to `cid` belong to `conn` from now on.
    pub fn insert(&mut self, cid: &[u8], conn: ConnHandle)
        requires
            cid@.len() == LOCAL_CID_LEN,
        ensures
            final(self)@ == old(self)@.insert(cid@, conn),
    {
        broadcast use vstd::std_specs::hash::group_hash_axioms;

        self.routes.insert(number_of(cid), conn);
        proof {
            assert forall|k: Seq<u8>| k.len() == LOCAL_CID_LEN && #[trigger] cid_number(k)
                == cid_number(cid@) implies k == cid@ by {
                lemma_cid_number(k, cid@);
            }
            assert(self@ =~= old(self)@.insert(cid@, conn));
        }
    }

    /// Packets to `cid` have no route any more.
    pub fn remove(&mut self, cid: &[u8])
        requires
            cid@.len() == LOCAL_CID_LEN,
        ensures
            final(self)@ == old(self)@.remove(cid@),
    {
        broadcast use vstd::std_specs::hash::group_hash_axioms;

        let _ = self.routes.remove(&number_of(cid));
        proof {
            assert forall|k: Seq<u8>| k.len() == LOCAL_CID_LEN && #[trigger] cid_number(k)
                == cid_number(cid@) implies k == cid@ by {
                lemma_cid_number(k, cid@);
            }
            assert(self@ =~= old(self)@.remove(cid@));
        }
    }
}

/// A routing update from a connection: an identifier has been issued or retired.
#[derive(Debug)]
pub struct CidRouteUpdate {
    /// The change.
    pub event: CidEvent,
    /// The connection it comes from.
    pub conn: ConnHandle,
}

/// Both tables.
#[verifier::ext_equal]
pub struct Routes {
    /// Routes of clients' first packets.
    pub initial: Map<Seq<u8>, ConnHandle>,
    /// Routes of packets to identifiers issued here.
    pub local: Map<Seq<u8>, ConnHandle>,
}

impl Routes {
    /// After a routing update, and whether it was applied: an identifier issued here
    /// has a fixed length, and no other is taken.
    pub open spec fn updated(self, event: CidEventView, conn: ConnHandle) -> (Routes, bool) {
        match event {
            CidEventView::Register(cid) => if cid.len() == LOCAL_CID_LEN {
                (Routes { local: self.local.insert(cid, conn), ..self }, true)
            } else {
                (self, false)
            },
            CidEventView::Unregister(cid) => if cid.len() == LOCAL_CID_LEN {
                (Routes { local: self.local.remove(cid), ..self }, true)
            } else {
                (self, false)
            },
            CidEventView::InitialRetired(dcid) => (
                Routes { initial: self.initial.remove(dcid), ..self },
                true,
            ),
        }
    }
}

/// Apply one `CidRouteUpdate` to the two demux routing tables.
///
/// Returns `true` if the update was applied successfully, `false` if the CID
/// bytes had the wrong length for a `Register`/`Unregister` event.
pub fn apply_cid_route_update(
    initial_map: &mut InitialRoutes,
    local_cid_map: &mut LocalCidRoutes,
    update: CidRouteUpdate,
) -> (applied: bool)
    requires
        old(initial_map).wf(),
    ensures
        final(initial_map).wf(),
        (Routes { initial: final(initial_map)@, local: final(local_cid_map)@ }, applied)
            == (Routes { initial: old(initial_map)@, local: old(local_cid_map)@ }).updated(
            update.event@,
            update.conn,
        ),
{
    match update.event {
        CidEvent::Register(cid) => {
            let key = cid.as_bytes();
            if key.len() == LOCAL_CID_LEN {
                local_cid_map.insert(key, update.conn);
                true
            } else {
                false
            }
        },
        CidEvent::Unregister(cid) => {
            let key = cid.as_bytes();
            if key.len() == LOCAL_CID_LEN {
                local_cid_map.remove(key);
                true
            } else {
                false
            }
        },
        // Handshake completed; evict the initial DCID from the routing table.
        // This is the primary way entries leave it; removal when a closed
        // channel is met is only a backstop for when this event is never
        // delivered.
        CidEvent::InitialRetired(dcid) => {
            initial_map.remove(dcid.as_slice());
            true
        },
    }
}

/// An update changes the route of the identifier it names and of no other, and only
/// in the table that the identifier belongs to.
pub proof fn law_update_is_local(
    routes: Routes,
    event: CidEventView,
    conn: ConnHandle,
    other: Seq<u8>,
)
    ensures
        ({
            let after = routes.updated(event, conn).0;
            &&& !(event is InitialRetired) ==> after.initial == routes.initial
            &&& event is InitialRetired ==> after.local == routes.local
            &&& (match event {
                CidEventView::Register(cid) => other != cid,
                CidEventView::Unregister(cid) => other != cid,
                CidEventView::InitialRetired(_) => true,
            }) ==> after.local.contains_key(other) == routes.local.contains_key(other) && (
            routes.local.contains_key(other) ==> after.local[other] == routes.local[other])
            &&& (event matches CidEventView::InitialRetired(dcid) ==> other != dcid)
                ==> after.initial.contains_key(other) == routes.initial.contains_key(other) && (
            routes.initial.contains_key(other) ==> after.initial[other] == routes.initial[other])
        }),
{
}

/// Registering an identifier and then unregistering it leaves no route, and retiring
/// an identifier that has no route changes nothing.
pub proof fn law_unregister_undoes_register(routes: Routes, cid: Seq<u8>, conn: ConnHandle)
    requires
        cid.len() == LOCAL_CID_LEN,
    ensures
        ({
            let after = routes.updated(CidEventView::Register(cid), conn).0.updated(
                CidEventView::Unregister(cid),
                conn,
            ).0;
            &&& !after.local.contains_key(cid)
            &&& !routes.local.contains_key(cid) ==> after == routes
            &&& !routes.initial.contains_key(cid) ==> routes.updated(
                CidEventView::InitialRetired(cid),
                conn,
            ).0 == routes
        }),
{
    let after = routes.updated(CidEventView::Register(cid), conn).0.updated(
        CidEventView::Unregister(cid),
        conn,
    ).0;
    if !routes.local.contains_key(cid) {
        assert(after.local =~= routes.local);
    }
    if !routes.initial.contains_key(cid) {
        assert(routes.initial.remove(cid) =~= routes.initial);
    }
}

/// What an update does: an identifier of eight bytes that is registered leads to the
/// connection that asked, one that is unregistered leads nowhere, and one of another length
/// is refused. A first identifier that is retired no longer leads anywhere, whatever its
/// length.
pub proof fn law_update_applied(routes: Routes, cid: Seq<u8>, conn: ConnHandle)
    ensures
        ({
            let (after, done) = routes.updated(CidEventView::Register(cid), conn);
            &&& done <==> cid.len() == 8
            &&& done ==> after.local.contains_key(cid) && after.local[cid] == conn
            &&& !done ==> after == routes
        }),
        ({
            let (after, done) = routes.updated(CidEventView::Unregister(cid), conn);
            &&& done <==> cid.len() == 8
            &&& done ==> !after.local.contains_key(cid)
            &&& !done ==> after == routes
        }),
        ({
            let (after, done) = routes.updated(CidEventView::InitialRetired(cid), conn);
            &&& done
            &&& !after.initial.contains_key(cid)
        }),
{
}

} // verus!
