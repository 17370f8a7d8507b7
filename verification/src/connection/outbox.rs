//! What waits to be sent, and what was sent.
use super::loss::{RecoveryEvent, RecoveryState};
use super::model::Conn;
use super::streams::{StreamLimits, StreamsState};
use super::{opt_token, Connection};
use crate::cid::{IssuedCid, LocalCids, PeerCids};
use crate::recovery::SpaceIndex;
use crate::sent_packet::{frames_fit, total_bytes, InFlight, SentPacket};
use crate::space::SpaceState;
use crate::stream::{SendState, StreamResend};
use crate::types::{Direction, PacketType, StreamId};
use vstd::prelude::*;

verus! {

impl Conn {
    /// After a packet was sent: it is in flight, and the timer is set.
    pub open spec fn with_packet_sent(
        self,
        space: SpaceIndex,
        packet: crate::sent_packet::SentPacketView,
    ) -> Conn {
        let sent = self.recovery.sent(space);
        (Conn {
            recovery: self.recovery.with_sent(
                space,
                InFlight { packets: sent.packets.push(packet), ..sent },
            ),
            ..self
        }).timed()
    }
}

impl Connection {
    /// Notes that a packet was sent (RFC 9002 Section A.5). Packet numbers of a space
    /// increase.
    pub fn on_packet_sent(&mut self, space: SpaceIndex, packet: SentPacket)
        requires
            old(self)@.wf(),
            packet.time_sent.in_range(),
            frames_fit(packet@.frames),
            ({
                let r = old(self)@.recovery;
                let sent = r.sent(space).packets;
                &&& total_bytes(sent) + packet.sent_bytes <= u64::MAX
                &&& sent.len() > 0 ==> sent.last().packet_number < packet.packet_number
                &&& r.packets_lost + r.initial.packets.len() + r.handshake.packets.len()
                    + r.application.packets.len() < u64::MAX
            }),
        ensures
            final(self)@.wf(),
            final(self)@ == old(self)@.with_packet_sent(space, packet@),
    {
        self.recovery.on_packet_sent(space, packet);
        self.recovery.set_loss_detection_timer();
    }

    /// How many probe packets are to be sent.
    pub fn probes_owed(&self) -> (n: u32)
        ensures
            n == self@.recovery.probes_owed,
    {
        self.recovery.probes_owed()
    }

    /// How many packets were lost.
    pub fn packets_lost(&self) -> (n: u64)
        ensures
            n == self@.recovery.packets_lost,
    {
        self.recovery.packets_lost()
    }

    /// What congestion control and path MTU discovery are to be told next.
    pub fn pop_recovery_event(&mut self) -> (event: Option<RecoveryEvent>)
        ensures
            match event {
                Some(e) => {
                    &&& old(self)@.recovery.events.len() > 0
                    &&& e@ == old(self)@.recovery.events[0]
                    &&& final(self)@ == (Conn {
                        recovery: RecoveryState {
                            events: old(self)@.recovery.events.drop_first(),
                            ..old(self)@.recovery
                        },
                        ..old(self)@
                    })
                },
                None => old(self)@.recovery.events.len() == 0 && final(self)@ == old(self)@,
            },
    {
        self.recovery.pop_event()
    }

    /// The packet numbers to acknowledge in packets of this type, which count as
    /// acknowledged from now on.
    pub fn take_to_ack(&mut self, packet_type: PacketType) -> (numbers: Vec<u64>)
        ensures
            match packet_type {
                PacketType::Initial => {
                    &&& numbers@ == old(self)@.initial.to_ack
                    &&& final(self)@ == (Conn {
                        initial: SpaceState {
                            to_ack: Seq::empty(),
                            ack_owed: false,
                            ..old(self)@.initial
                        },
                        ..old(self)@
                    })
                },
                PacketType::Handshake => {
                    &&& numbers@ == old(self)@.handshake.to_ack
                    &&& final(self)@ == (Conn {
                        handshake: SpaceState {
                            to_ack: Seq::empty(),
                            ack_owed: false,
                            ..old(self)@.handshake
                        },
                        ..old(self)@
                    })
                },
                _ => {
                    &&& numbers@ == old(self)@.application.to_ack
                    &&& final(self)@ == (Conn {
                        application: SpaceState {
                            to_ack: Seq::empty(),
                            ack_owed: false,
                            ..old(self)@.application
                        },
                        ..old(self)@
                    })
                },
            },
    {
        match packet_type {
            PacketType::Initial => self.initial.take_to_ack(),
            PacketType::Handshake => self.handshake.take_to_ack(),
            _ => self.application.take_to_ack(),
        }
    }

    /// The next identifier to issue to the peer in a NEW_CONNECTION_ID frame.
    pub fn take_new_cid(&mut self) -> (cid: Option<IssuedCid>)
        ensures
            match cid {
                Some(c) => {
                    &&& old(self)@.local_cids.pending_new.len() > 0
                    &&& c@ == old(self)@.local_cids.pending_new[0]
                    &&& final(self)@ == (Conn {
                        local_cids: LocalCids {
                            pending_new: old(self)@.local_cids.pending_new.drop_first(),
                            ..old(self)@.local_cids
                        },
                        ..old(self)@
                    })
                },
                None => old(self)@.local_cids.pending_new.len() == 0 && final(self)@ == old(self)@,
            },
    {
        self.local_cids.take_pending_new()
    }

    /// The next sequence number to send in a RETIRE_CONNECTION_ID frame.
    pub fn take_retired_cid(&mut self) -> (seq: Option<u64>)
        ensures
            match seq {
                Some(s) => {
                    &&& old(self)@.peer_cids.pending_retire.len() > 0
                    &&& s == old(self)@.peer_cids.pending_retire[0]
                    &&& final(self)@ == (Conn {
                        peer_cids: PeerCids {
                            pending_retire: old(self)@.peer_cids.pending_retire.drop_first(),
                            ..old(self)@.peer_cids
                        },
                        ..old(self)@
                    })
                },
                None => old(self)@.peer_cids.pending_retire.len() == 0 && final(self)@ == old(
                    self,
                )@,
            },
    {
        self.peer_cids.take_pending_retire()
    }

    /// The code and final size to send in a RESET_STREAM frame for a stream, once.
    pub fn take_reset_stream(&mut self, stream: StreamId) -> (reset: Option<(u64, u64)>)
        ensures
            reset == if old(self)@.streams.pending_resets.contains_key(stream.0) {
                Some(old(self)@.streams.pending_resets[stream.0])
            } else {
                None
            },
            final(self)@ == (Conn {
                streams: StreamsState {
                    pending_resets: old(self)@.streams.pending_resets.remove(stream.0),
                    ..old(self)@.streams
                },
                ..old(self)@
            }),
    {
        self.streams.take_reset(stream.0)
    }

    /// The limit to send in a MAX_STREAMS frame, once.
    pub fn take_max_streams(&mut self, dir: Direction) -> (max: Option<u64>)
        ensures
            max == old(self)@.streams.limits(dir).pending_max,
            final(self)@ == (Conn {
                streams: old(self)@.streams.with_limits(
                    dir,
                    old(self)@.streams.limits(dir).announced(),
                ),
                ..old(self)@
            }),
    {
        self.streams.take_max_streams(dir)
    }

    /// The limit to send in a STREAMS_BLOCKED frame, once.
    pub fn take_streams_blocked(&mut self, dir: Direction) -> (limit: Option<u64>)
        ensures
            limit == old(self)@.streams.limits(dir).pending_blocked,
            final(self)@ == (Conn {
                streams: old(self)@.streams.with_limits(
                    dir,
                    StreamLimits { pending_blocked: None, ..old(self)@.streams.limits(dir) },
                ),
                ..old(self)@
            }),
    {
        self.streams.take_blocked(dir)
    }

    /// The token to send in a NEW_TOKEN frame, once.
    pub fn take_new_token(&mut self) -> (token: Option<Vec<u8>>)
        ensures
            opt_token(token) == old(self)@.pending_new_token,
            final(self)@ == (Conn { pending_new_token: None, ..old(self)@ }),
    {
        let mut token: Option<Vec<u8>> = None;
        std::mem::swap(&mut token, &mut self.pending_new_token);
        token
    }

    /// The lost data of a stream that goes out again next.
    pub fn take_lost_stream_data(&mut self, stream: StreamId) -> (lost: Option<StreamResend>)
        ensures
            ({
                let streams = old(self)@.streams;
                if streams.send.contains_key(stream.0) && streams.send[stream.0].resend.len() > 0 {
                    let s = streams.send[stream.0];
                    &&& lost matches Some(l) && (l.offset, l.data@, l.fin) == s.resend[0]
                    &&& final(self)@ == (Conn {
                        streams: StreamsState {
                            send: streams.send.insert(
                                stream.0,
                                SendState { resend: s.resend.drop_first(), ..s },
                            ),
                            ..streams
                        },
                        ..old(self)@
                    })
                } else {
                    lost is None && final(self)@ == old(self)@
                }
            }),
    {
        self.streams.take_lost_data(stream.0)
    }
}

/// A packet that is sent is in flight behind those of its space, and in no other space; the
/// timer is set with it counted in.
pub proof fn law_sent_packet_in_flight(
    c: Conn,
    space: SpaceIndex,
    packet: crate::sent_packet::SentPacketView,
)
    ensures
        ({
            let after = c.with_packet_sent(space, packet);
            let (r, s) = (c.recovery, after.recovery);
            &&& space == SpaceIndex::Initial ==> s.initial.packets == r.initial.packets.push(packet)
                && s.handshake == r.handshake && s.application == r.application
            &&& space == SpaceIndex::Handshake ==> s.handshake.packets == r.handshake.packets.push(
                packet,
            ) && s.initial == r.initial && s.application == r.application
            &&& space == SpaceIndex::Application ==> s.application.packets
                == r.application.packets.push(packet) && s.initial == r.initial && s.handshake
                == r.handshake
            &&& s.initial.largest_acked == r.initial.largest_acked && s.handshake.largest_acked
                == r.handshake.largest_acked && s.application.largest_acked
                == r.application.largest_acked
            &&& s == (RecoveryState {
                initial: s.initial,
                handshake: s.handshake,
                application: s.application,
                loss_timer: s.timer(),
                ..r
            })
            &&& after == (Conn { recovery: s, ..c })
        }),
{
}

} // verus!
