//! Demultiplexing: what a server does with each datagram that comes in.
use super::routes::{
    apply_cid_route_update, CidRouteUpdate, ConnHandle, InitialRoutes, LocalCidRoutes, Routes,
};
use crate::cid::{CidEventView, LOCAL_CID_LEN};
use crate::coding::varint_bytes;
use crate::packet::{
    encode_version_negotiation, initial_token_at, law_initial_token_layout,
    law_long_header_layout, law_version_negotiation_layout, long_prefix_at,
    parse_client_initial_ids, parse_initial_token, peek_dcid, peeked, version_negotiation_bytes,
    QUIC_V1,
};
use crate::types::PacketType;
use vstd::prelude::*;

verus! {

/// A route, by the identifier it stands under.
#[derive(Debug)]
pub enum RouteKey {
    /// A route of an identifier issued here.
    Local(Vec<u8>),
    /// A route of a client's first packets.
    Initial(Vec<u8>),
}

/// A route, with the identifier as a sequence.
#[verifier::ext_equal]
pub enum RouteKeyView {
    /// See [`RouteKey::Local`].
    Local(Seq<u8>),
    /// See [`RouteKey::Initial`].
    Initial(Seq<u8>),
}

impl View for RouteKey {
    type V = RouteKeyView;

    open spec fn view(&self) -> RouteKeyView {
        match *self {
            RouteKey::Local(cid) => RouteKeyView::Local(cid@),
            RouteKey::Initial(dcid) => RouteKeyView::Initial(dcid@),
        }
    }
}

/// What to do with a datagram.
#[derive(Debug)]
#[allow(inconsistent_fields)]
pub enum DemuxAction {
    /// Nothing.
    Discard,
    /// Hand it to a connection. Where that connection is gone, its route is to be
    /// closed with [`Demux::on_closed`].
    Forward {
        /// The connection.
        conn: ConnHandle,
        /// The route that led there.
        route: RouteKey,
    },
    /// Send this Version Negotiation packet back.
    NegotiateVersion {
        /// The packet.
        packet: Vec<u8>,
    },
    /// Send a Retry packet back, with a fresh identifier and token.
    SendRetry {
        /// The identifier that the client sent to.
        dcid: Vec<u8>,
        /// The client's identifier.
        scid: Vec<u8>,
    },
    /// Check this token; [`Demux::on_token`] takes what came of it.
    CheckToken {
        /// The token.
        token: Vec<u8>,
        /// The identifier that the client sent to.
        dcid: Vec<u8>,
        /// The client's identifier.
        scid: Vec<u8>,
    },
    /// Open a connection; [`Demux::on_accepted`] enters it.
    Accept {
        /// The identifier that the client sent to.
        dcid: Vec<u8>,
        /// The client's identifier.
        scid: Vec<u8>,
    },
}

/// What to do with a datagram, with bytes as sequences.
#[verifier::ext_equal]
#[allow(inconsistent_fields)]
pub enum Action {
    /// See [`DemuxAction::Discard`].
    Discard,
    /// See [`DemuxAction::Forward`].
    Forward {
        /// The connection.
        conn: ConnHandle,
        /// The route that led there.
        route: RouteKeyView,
    },
    /// See [`DemuxAction::NegotiateVersion`].
    NegotiateVersion {
        /// The packet.
        packet: Seq<u8>,
    },
    /// See [`DemuxAction::SendRetry`].
    SendRetry {
        /// The identifier that the client sent to.
        dcid: Seq<u8>,
        /// The client's identifier.
        scid: Seq<u8>,
    },
    /// See [`DemuxAction::CheckToken`].
    CheckToken {
        /// The token.
        token: Seq<u8>,
        /// The identifier that the client sent to.
        dcid: Seq<u8>,
        /// The client's identifier.
        scid: Seq<u8>,
    },
    /// See [`DemuxAction::Accept`].
    Accept {
        /// The identifier that the client sent to.
        dcid: Seq<u8>,
        /// The client's identifier.
        scid: Seq<u8>,
    },
}

impl View for DemuxAction {
    type V = Action;

    open spec fn view(&self) -> Action {
        match *self {
            DemuxAction::Discard => Action::Discard,
            DemuxAction::Forward { conn, route } => Action::Forward { conn, route: route@ },
            DemuxAction::NegotiateVersion { packet } => Action::NegotiateVersion {
                packet: packet@,
            },
            DemuxAction::SendRetry { dcid, scid } => Action::SendRetry {
                dcid: dcid@,
                scid: scid@,
            },
            DemuxAction::CheckToken { token, dcid, scid } => Action::CheckToken {
                token: token@,
                dcid: dcid@,
                scid: scid@,
            },
            DemuxAction::Accept { dcid, scid } => Action::Accept { dcid: dcid@, scid: scid@ },
        }
    }
}

impl Routes {
    /// What to do with a datagram from a client that no route leads from: answer an
    /// unknown version, have the address validated where `retry` asks for it, else
    /// open a connection.
    pub open spec fn greeted(datagram: Seq<u8>, retry: bool) -> Action {
        match long_prefix_at(datagram) {
            None => Action::Discard,
            Some(p) => if p.version != QUIC_V1 {
                Action::NegotiateVersion {
                    packet: version_negotiation_bytes(p.scid, p.dcid, seq![QUIC_V1]),
                }
            } else if !retry {
                Action::Accept { dcid: p.dcid, scid: p.scid }
            } else {
                match initial_token_at(datagram) {
                    Some(token) => if token.len() > 0 {
                        Action::CheckToken { token, dcid: p.dcid, scid: p.scid }
                    } else {
                        Action::SendRetry { dcid: p.dcid, scid: p.scid }
                    },
                    None => Action::SendRetry { dcid: p.dcid, scid: p.scid },
                }
            },
        }
    }

    /// What to do with a datagram: a known identifier leads to its connection, a
    /// client's first packet to a new one, and anything else nowhere.
    pub open spec fn action(self, datagram: Seq<u8>, retry: bool) -> Action {
        match peeked(datagram, LOCAL_CID_LEN) {
            None => Action::Discard,
            Some((packet_type, dcid)) => if self.local.contains_key(dcid) {
                Action::Forward { conn: self.local[dcid], route: RouteKeyView::Local(dcid) }
            } else if packet_type != PacketType::Initial {
                Action::Discard
            } else if self.initial.contains_key(dcid) {
                Action::Forward { conn: self.initial[dcid], route: RouteKeyView::Initial(dcid) }
            } else {
                Routes::greeted(datagram, retry)
            },
        }
    }

    /// After a token was checked: a client with a valid one is let in, another gets
    /// a fresh Retry.
    pub open spec fn token_checked(valid: bool, dcid: Seq<u8>, scid: Seq<u8>) -> Action {
        if valid {
            Action::Accept { dcid, scid }
        } else {
            Action::SendRetry { dcid, scid }
        }
    }

    /// After a connection was opened: both its identifiers lead to it.
    pub open spec fn accepted(self, dcid: Seq<u8>, local_cid: Seq<u8>, conn: ConnHandle) -> Routes {
        if local_cid.len() == LOCAL_CID_LEN {
            Routes {
                initial: self.initial.insert(dcid, conn),
                local: self.local.insert(local_cid, conn),
            }
        } else {
            self
        }
    }

    /// After the connection at the end of a route was found gone.
    pub open spec fn closed(self, route: RouteKeyView) -> Routes {
        match route {
            RouteKeyView::Local(cid) => Routes { local: self.local.remove(cid), ..self },
            RouteKeyView::Initial(dcid) => Routes { initial: self.initial.remove(dcid), ..self },
        }
    }
}

/// The routing tables of a server.
#[derive(Debug)]
pub struct Demux {
    initial_map: InitialRoutes,
    local_cid_map: LocalCidRoutes,
}

impl View for Demux {
    type V = Routes;

    closed spec fn view(&self) -> Routes {
        Routes { initial: self.initial_map@, local: self.local_cid_map@ }
    }
}

impl Demux {
    /// The tables are well formed.
    pub closed spec fn wf(&self) -> bool {
        self.initial_map.wf()
    }

    /// No routes.
    pub fn new() -> (d: Demux)
        ensures
            d.wf(),
            d@ == (Routes { initial: Map::empty(), local: Map::empty() }),
    {
        Demux { initial_map: InitialRoutes::new(), local_cid_map: LocalCidRoutes::new() }
    }

    /// Applies a routing update from a connection; see [`apply_cid_route_update`].
    pub fn apply(&mut self, update: CidRouteUpdate) -> (applied: bool)
        requires
            old(self).wf(),
        ensures
            final(self).wf(),
            (final(self)@, applied) == old(self)@.updated(update.event@, update.conn),
    {
        apply_cid_route_update(&mut self.initial_map, &mut self.local_cid_map, update)
    }

    /// Decides what to do with a datagram. `retry` says whether clients have to
    /// prove their address.
    pub fn on_datagram(&self, datagram: &[u8], retry: bool) -> (action: DemuxAction)
        requires
            self.wf(),
        ensures
            action@ == self@.action(datagram@, retry),
    {
        // Classify the packet and extract its DCID without decrypting.
        let (packet_type, dcid) = match peek_dcid(datagram, LOCAL_CID_LEN) {
            Ok(found) => found,
            Err(_) => return DemuxAction::Discard,
        };
        // Identifiers issued here come first, under either form of header: the
        // client switches to the server's identifier after the server's first
        // packet, so Handshake packets carry it too.
        match self.local_cid_map.get(dcid.as_slice()) {
            Some(conn) => return DemuxAction::Forward { conn, route: RouteKey::Local(dcid) },
            None => {},
        }
        // Only a client's first packets can go to an unknown identifier.
        if packet_type != PacketType::Initial {
            return DemuxAction::Discard;
        }
        // Existing handshake in progress for this DCID?
        match self.initial_map.get(dcid.as_slice()) {
            Some(conn) => return DemuxAction::Forward { conn, route: RouteKey::Initial(dcid) },
            None => {},
        }
        greet(datagram, retry)
    }

    /// Decides what becomes of a client whose token was checked.
    pub fn on_token(valid: bool, dcid: Vec<u8>, scid: Vec<u8>) -> (action: DemuxAction)
        ensures
            action@ == Routes::token_checked(valid, dcid@, scid@),
    {
        if valid {
            DemuxAction::Accept { dcid, scid }
        } else {
            DemuxAction::SendRetry { dcid, scid }
        }
    }

    /// Enters a connection that was opened for a client that sent to `dcid`: in both
    /// tables at once, so that no packet of the handshake can miss it. Says whether
    /// it was entered; an identifier of the wrong length is not.
    pub fn on_accepted(&mut self, dcid: Vec<u8>, local_cid: &[u8], conn: ConnHandle) -> (entered:
        bool)
        requires
            old(self).wf(),
        ensures
            final(self).wf(),
            entered == (local_cid@.len() == LOCAL_CID_LEN),
            final(self)@ == old(self)@.accepted(dcid@, local_cid@, conn),
    {
        if local_cid.len() != LOCAL_CID_LEN {
            return false;
        }
        self.initial_map.insert(dcid, conn);
        self.local_cid_map.insert(local_cid, conn);
        true
    }

    /// The connection at the end of `route` is gone.
    pub fn on_closed(&mut self, route: RouteKey)
        requires
            old(self).wf(),
        ensures
            final(self).wf(),
            final(self)@ == old(self)@.closed(route@),
    {
        match route {
            RouteKey::Local(cid) => {
                if cid.len() == LOCAL_CID_LEN {
                    self.local_cid_map.remove(cid.as_slice());
                } else {
                    proof {
                        self.local_cid_map.lemma_keys();
                    }
                    assert(self@.local.remove(cid@) =~= self@.local);
                }
            },
            RouteKey::Initial(dcid) => self.initial_map.remove(dcid.as_slice()),
        }
    }
}

/// Decides what to do with a first packet.
fn greet(datagram: &[u8], retry: bool) -> (action: DemuxAction)
    ensures
        action@ == Routes::greeted(datagram@, retry),
{
    let (version, dcid, scid) = match parse_client_initial_ids(datagram) {
        Some(ids) => ids,
        None => return DemuxAction::Discard,
    };
    // RFC 9000 Section 17.2.1: if the client's Initial carries an unsupported
    // version, respond with a Version Negotiation packet and do NOT create a
    // connection.
    if version != QUIC_V1 {
        let versions = [QUIC_V1];
        let packet = encode_version_negotiation(
            scid.as_slice(),
            dcid.as_slice(),
            versions.as_slice(),
        );
        assert(versions@ =~= seq![QUIC_V1]);
        return DemuxAction::NegotiateVersion { packet };
    }
    if !retry {
        return DemuxAction::Accept { dcid, scid };
    }
    // RFC 9000 Section 8.1: without a token the client is sent a Retry, and no
    // connection is created yet.

    match parse_initial_token(datagram) {
        Some(token) => {
            if token.len() > 0 {
                DemuxAction::CheckToken { token, dcid, scid }
            } else {
                DemuxAction::SendRetry { dcid, scid }
            }
        },
        None => DemuxAction::SendRetry { dcid, scid },
    }
}

/// Once a connection is entered, datagrams to either of its identifiers lead to it:
/// at once to the one issued here, and to the one that the client chose from packets
/// of the Initial type, unless that is the identifier of another connection.
pub proof fn law_accepted_is_reached(
    routes: Routes,
    dcid: Seq<u8>,
    local_cid: Seq<u8>,
    conn: ConnHandle,
    datagram: Seq<u8>,
    retry: bool,
)
    requires
        local_cid.len() == LOCAL_CID_LEN,
    ensures
        ({
            let after = routes.accepted(dcid, local_cid, conn);
            match peeked(datagram, LOCAL_CID_LEN) {
                Some((packet_type, to)) => {
                    &&& to == local_cid ==> after.action(datagram, retry) == (Action::Forward {
                        conn,
                        route: RouteKeyView::Local(local_cid),
                    })
                    &&& to == dcid && dcid != local_cid && packet_type == PacketType::Initial
                        && !routes.local.contains_key(dcid) ==> after.action(datagram, retry) == (
                    Action::Forward { conn, route: RouteKeyView::Initial(dcid) })
                },
                None => after.action(datagram, retry) == Action::Discard,
            }
        }),
{
}

/// Once the handshake is over, the identifier that the client chose is free again,
/// and the one issued here still leads to the connection.
pub proof fn law_retired_initial_is_free(
    routes: Routes,
    dcid: Seq<u8>,
    local_cid: Seq<u8>,
    conn: ConnHandle,
)
    requires
        local_cid.len() == LOCAL_CID_LEN,
    ensures
        ({
            let after = routes.accepted(dcid, local_cid, conn).updated(
                CidEventView::InitialRetired(dcid),
                conn,
            ).0;
            &&& !after.initial.contains_key(dcid)
            &&& after.local.contains_key(local_cid)
            &&& after.local[local_cid] == conn
        }),
{
}

/// No connection is opened for a datagram that does not start with an Initial packet
/// of the version spoken here; nor for any, before its token was checked, where
/// clients have to prove their address.
pub proof fn law_no_connection_unasked(routes: Routes, datagram: Seq<u8>, retry: bool)
    ensures
        routes.action(datagram, retry) is Accept ==> {
            &&& !retry
            &&& long_prefix_at(datagram) matches Some(p) && p.version == QUIC_V1
            &&& peeked(datagram, LOCAL_CID_LEN) matches Some((packet_type, dcid)) && packet_type
                == PacketType::Initial && !routes.initial.contains_key(dcid)
                && !routes.local.contains_key(dcid)
        },
{
}

/// What becomes of a client whose Initial packet leads nowhere yet. One of another version
/// is told, under the identifiers it used the other way round, that version 1 is spoken
/// here. One of version 1 is let in where nobody has to prove an address; else one without
/// a token is sent a Retry, and the token of another is checked. Whatever is to be done is
/// about the identifiers in the packet's header, and a checked token leads in or to a Retry
/// with those same identifiers.
pub proof fn law_client_greeted(
    routes: Routes,
    first: u8,
    v3: u8,
    v2: u8,
    v1: u8,
    v0: u8,
    dcid: Seq<u8>,
    scid: Seq<u8>,
    token: Seq<u8>,
    tail: Seq<u8>,
    retry: bool,
)
    requires
        first >= 128,
        (first % 64) / 16 == 0,
        v3 != 0 || v2 != 0 || v1 != 0 || v0 != 0,
        dcid.len() <= 255,
        scid.len() <= 255,
        token.len() < 0x4000_0000_0000_0000,
        !routes.local.contains_key(dcid),
        !routes.initial.contains_key(dcid),
    ensures
        ({
            let rest = varint_bytes(token.len() as u64) + token + tail;
            let datagram = seq![first, v3, v2, v1, v0, dcid.len() as u8] + dcid
                + seq![scid.len() as u8] + scid + rest;
            let spoken = v3 == 0 && v2 == 0 && v1 == 0 && v0 == 1;
            let action = routes.action(datagram, retry);
            &&& !spoken ==> (action matches Action::NegotiateVersion { packet } && packet =~= seq![
                128u8,
                0u8,
                0u8,
                0u8,
                0u8,
                scid.len() as u8,
            ] + scid + seq![dcid.len() as u8] + dcid + seq![0u8, 0u8, 0u8, 1u8])
            &&& spoken && !retry ==> action == (Action::Accept { dcid, scid })
            &&& spoken && retry && token.len() == 0 ==> action == (Action::SendRetry { dcid, scid })
            &&& spoken && retry && token.len() > 0 ==> action == (Action::CheckToken {
                token,
                dcid,
                scid,
            })
            &&& Routes::token_checked(true, dcid, scid) == (Action::Accept { dcid, scid })
            &&& Routes::token_checked(false, dcid, scid) == (Action::SendRetry { dcid, scid })
        }),
{
    let rest = varint_bytes(token.len() as u64) + token + tail;
    law_long_header_layout(first, v3, v2, v1, v0, dcid, scid, rest, LOCAL_CID_LEN);
    let datagram = seq![first, v3, v2, v1, v0, dcid.len() as u8] + dcid + seq![scid.len() as u8]
        + scid + rest;
    law_initial_token_layout(datagram, token, tail);
    law_version_negotiation_layout(scid, dcid);
}

/// The identifiers of whatever is to be done about a client are those in the header of
/// its packet: the destination is the identifier that the client sent to, the source its
/// own.
pub proof fn law_greeting_names_the_client(routes: Routes, datagram: Seq<u8>, retry: bool)
    ensures
        routes.action(datagram, retry) matches Action::CheckToken { token, dcid, scid } ==> (
        long_prefix_at(datagram) matches Some(p) && dcid == p.dcid && scid == p.scid
            && token.len() > 0 && initial_token_at(datagram) == Some(token)) && retry,
        routes.action(datagram, retry) matches Action::SendRetry { dcid, scid } ==> (long_prefix_at(
            datagram,
        ) matches Some(p) && dcid == p.dcid && scid == p.scid) && retry,
        routes.action(datagram, retry) matches Action::Accept { dcid, scid } ==> (long_prefix_at(
            datagram,
        ) matches Some(p) && dcid == p.dcid && scid == p.scid) && !retry,
{
}

/// A datagram to an identifier issued here goes to its connection, whatever its header;
/// an Initial packet to an identifier that a client chose goes to the connection that was
/// opened for it; any other packet to an unknown identifier, and what cannot be read, is
/// discarded.
pub proof fn law_datagram_forwarded(routes: Routes, datagram: Seq<u8>, retry: bool)
    ensures
        peeked(datagram, 8) matches Some((ty, dcid)) ==> {
            let action = routes.action(datagram, retry);
            &&& routes.local.contains_key(dcid) ==> action == (Action::Forward {
                conn: routes.local[dcid],
                route: RouteKeyView::Local(dcid),
            })
            &&& !routes.local.contains_key(dcid) && ty == PacketType::Initial
                && routes.initial.contains_key(dcid) ==> action == (Action::Forward {
                conn: routes.initial[dcid],
                route: RouteKeyView::Initial(dcid),
            })
            &&& !routes.local.contains_key(dcid) && ty != PacketType::Initial ==> action
                == Action::Discard
        },
        peeked(datagram, 8) is None ==> routes.action(datagram, retry) == Action::Discard,
{
}

/// Entering a connection makes exactly its two identifiers lead to it, if the one issued
/// here has eight bytes, else nothing; closing a route takes that one out of its table.
pub proof fn law_routes_entered_and_closed(
    routes: Routes,
    dcid: Seq<u8>,
    local_cid: Seq<u8>,
    conn: ConnHandle,
    other: Seq<u8>,
)
    ensures
        local_cid.len() != 8 ==> routes.accepted(dcid, local_cid, conn) == routes,
        local_cid.len() == 8 ==> ({
            let after = routes.accepted(dcid, local_cid, conn);
            &&& after.initial.contains_key(dcid) && after.initial[dcid] == conn
            &&& after.local.contains_key(local_cid) && after.local[local_cid] == conn
            &&& other != dcid ==> after.initial.contains_key(other) == routes.initial.contains_key(
                other,
            ) && (routes.initial.contains_key(other) ==> after.initial[other]
                == routes.initial[other])
            &&& other != local_cid ==> after.local.contains_key(other)
                == routes.local.contains_key(other) && (routes.local.contains_key(other)
                ==> after.local[other] == routes.local[other])
        }),
        ({
            let after = routes.closed(RouteKeyView::Local(local_cid));
            &&& !after.local.contains_key(local_cid)
            &&& other != local_cid && routes.local.contains_key(other) ==> after.local.contains_key(
                other,
            ) && after.local[other] == routes.local[other]
            &&& after.initial == routes.initial
        }),
        ({
            let after = routes.closed(RouteKeyView::Initial(dcid));
            &&& !after.initial.contains_key(dcid)
            &&& other != dcid && routes.initial.contains_key(other) ==> after.initial.contains_key(
                other,
            ) && after.initial[other] == routes.initial[other]
            &&& after.local == routes.local
        }),
{
}

} // verus!
