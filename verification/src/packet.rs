//! Packet headers: what can be read of a packet without keys, packet numbers,
//! Version Negotiation and Retry (RFC 9000 Section 17, RFC 9001 Section 5.8).
use crate::coding::{
    lemma_take_bytes, lemma_take_varint_bounds, put_bytes, take_bytes, take_u8, take_varint, Buf,
};
use crate::types::{copy_bytes, same_bytes, PacketType};
use aes_gcm::{AeadInPlace, KeyInit};
use vstd::prelude::*;

verus! {

/// QUIC version 1 (RFC 9000).
pub const QUIC_V1: u32 = 1;

/// The bytes of header protection's sample (RFC 9001 Section 5.4.2).
pub const SAMPLE_LEN: usize = 16;

/// A packet whose header cannot be read.
#[derive(Clone, Copy, Debug, PartialEq, Eq, Structural)]
pub struct MalformedPacket;

/// Splits a 32-bit integer in network byte order off.
pub open spec fn take_u32(s: Seq<u8>) -> Option<(u32, Seq<u8>)> {
    if s.len() >= 4 {
        Some((crate::coding::u32_at(s), s.skip(4)))
    } else {
        None
    }
}

/// Splits a byte string off that is preceded by its length in one byte.
pub open spec fn take_short_counted(s: Seq<u8>) -> Option<(Seq<u8>, Seq<u8>)> {
    match take_u8(s) {
        None => None,
        Some((n, s1)) => take_bytes(s1, n as u64),
    }
}

/// The fields that all long headers start with (RFC 8999 Section 5.1).
#[verifier::ext_equal]
pub struct LongPrefix {
    /// The first byte.
    pub first: u8,
    /// The version.
    pub version: u32,
    /// The destination connection identifier.
    pub dcid: Seq<u8>,
    /// The source connection identifier.
    pub scid: Seq<u8>,
    /// What follows.
    pub rest: Seq<u8>,
}

/// The front of a long header, up to the destination connection identifier: first
/// byte, version, identifier and what follows.
pub open spec fn long_front_at(s: Seq<u8>) -> Option<(u8, u32, Seq<u8>, Seq<u8>)> {
    match take_u8(s) {
        None => None,
        Some((first, s1)) => if first < 0x80 {
            None
        } else {
            match take_u32(s1) {
                None => None,
                Some((version, s2)) => match take_short_counted(s2) {
                    None => None,
                    Some((dcid, s3)) => Some((first, version, dcid, s3)),
                },
            }
        },
    }
}

/// The fields that all long headers start with.
pub open spec fn long_prefix_at(s: Seq<u8>) -> Option<LongPrefix> {
    match long_front_at(s) {
        None => None,
        Some((first, version, dcid, s1)) => match take_short_counted(s1) {
            None => None,
            Some((scid, rest)) => Some(LongPrefix { first, version, dcid, scid, rest }),
        },
    }
}

/// The type of a long header packet: version 0 is Version Negotiation, else two
/// bits of the first byte tell.
pub open spec fn long_type(first: u8, version: u32) -> PacketType {
    if version == 0 {
        PacketType::VersionNegotiation
    } else if (first / 16) % 4 == 0 {
        PacketType::Initial
    } else if (first / 16) % 4 == 1 {
        PacketType::ZeroRtt
    } else if (first / 16) % 4 == 2 {
        PacketType::Handshake
    } else {
        PacketType::Retry
    }
}

/// The type and destination connection identifier of a packet, whose short header
/// holds an identifier of `cid_len` bytes.
pub open spec fn peeked(s: Seq<u8>, cid_len: usize) -> Option<(PacketType, Seq<u8>)> {
    if s.len() == 0 {
        None
    } else if s[0] >= 0x80 {
        match long_front_at(s) {
            None => None,
            Some((first, version, dcid, rest)) => Some((long_type(first, version), dcid)),
        }
    } else {
        match take_bytes(s.skip(1), cid_len as u64) {
            None => None,
            Some((dcid, rest)) => Some((PacketType::Short, dcid)),
        }
    }
}

fn next_u32(buf: &mut Buf<'_>) -> (r: Option<u32>)
    ensures
        match take_u32(old(buf)@) {
            Some((v, rest)) => r == Some(v) && final(buf)@ == rest,
            None => r is None,
        },
{
    match buf.get_u32() {
        Ok(v) => Some(v),
        Err(_) => None,
    }
}

fn next_short_counted<'a>(buf: &mut Buf<'a>) -> (r: Option<&'a [u8]>)
    ensures
        match take_short_counted(old(buf)@) {
            Some((b, rest)) => r matches Some(bytes) && bytes@ == b && final(buf)@ == rest
                && b.len() <= 255,
            None => r is None,
        },
{
    let n = buf.next_u8()?;
    buf.next_bytes(n as u64)
}

fn long_packet_type(first: u8, version: u32) -> (ty: PacketType)
    ensures
        ty == long_type(first, version),
{
    if version == 0 {
        return PacketType::VersionNegotiation;
    }
    match (first / 16) % 4 {
        0 => PacketType::Initial,
        1 => PacketType::ZeroRtt,
        2 => PacketType::Handshake,
        _ => PacketType::Retry,
    }
}

fn next_long_front<'a>(buf: &mut Buf<'a>) -> (r: Option<(u8, u32, &'a [u8])>)
    ensures
        match long_front_at(old(buf)@) {
            Some((first, version, dcid, rest)) => r matches Some((f, v, d)) && f == first && v
                == version && d@ == dcid && final(buf)@ == rest && dcid.len() <= 255,
            None => r is None,
        },
{
    let first = buf.next_u8()?;
    if first < 0x80 {
        return None;
    }
    let version = next_u32(buf)?;
    let dcid = next_short_counted(buf)?;
    Some((first, version, dcid))
}

/// The type and destination connection identifier of a packet, read without keys.
/// A short header holds an identifier of `cid_len` bytes.
///
/// # Errors
/// [`MalformedPacket`] if the packet ends before the identifier does.
pub fn peek_dcid(packet: &[u8], cid_len: usize) -> (r: Result<
    (PacketType, Vec<u8>),
    MalformedPacket,
>)
    ensures
        match peeked(packet@, cid_len) {
            Some((ty, dcid)) => r matches Ok((t, d)) && t == ty && d@ == dcid,
            None => r is Err,
        },
{
    if packet.len() == 0 {
        return Err(MalformedPacket);
    }
    let mut buf = Buf::new(packet);
    if packet[0] >= 0x80 {
        match next_long_front(&mut buf) {
            Some((first, version, dcid)) => Ok(
                (long_packet_type(first, version), copy_bytes(dcid)),
            ),
            None => Err(MalformedPacket),
        }
    } else {
        let _ = buf.next_u8();
        match buf.next_bytes(cid_len as u64) {
            Some(dcid) => Ok((PacketType::Short, copy_bytes(dcid))),
            None => Err(MalformedPacket),
        }
    }
}

fn next_long_prefix<'a>(buf: &mut Buf<'a>) -> (r: Option<(u8, u32, &'a [u8], &'a [u8])>)
    ensures
        match long_prefix_at(old(buf)@) {
            Some(p) => r matches Some((f, v, d, s)) && f == p.first && v == p.version && d@
                == p.dcid && s@ == p.scid && final(buf)@ == p.rest && p.dcid.len() <= 255
                && p.scid.len() <= 255,
            None => r is None,
        },
{
    let (first, version, dcid) = next_long_front(buf)?;
    let scid = next_short_counted(buf)?;
    Some((first, version, dcid, scid))
}

/// Extract `(version, dcid, scid)` from a client's first long-header Initial
/// packet without decrypting it.  Returns `None` for short-header or truncated
/// datagrams.
pub fn parse_client_initial_ids(datagram: &[u8]) -> (r: Option<(u32, Vec<u8>, Vec<u8>)>)
    ensures
        match long_prefix_at(datagram@) {
            Some(p) => r matches Some((v, d, s)) && v == p.version && d@ == p.dcid && s@ == p.scid
                && p.dcid.len() <= 255 && p.scid.len() <= 255,
            None => r is None,
        },
{
    let mut buf = Buf::new(datagram);
    let (_, version, dcid, scid) = next_long_prefix(&mut buf)?;
    Some((version, copy_bytes(dcid), copy_bytes(scid)))
}

/// The token of an Initial packet.
pub open spec fn initial_token_at(s: Seq<u8>) -> Option<Seq<u8>> {
    match long_prefix_at(s) {
        None => None,
        Some(p) => if long_type(p.first, p.version) != PacketType::Initial {
            None
        } else {
            match crate::frame::take_counted(p.rest) {
                None => None,
                Some((token, rest)) => Some(token),
            }
        },
    }
}

/// The token of an Initial packet, empty if it carries none. `None` for other
/// packets and truncated ones.
pub fn parse_initial_token(datagram: &[u8]) -> (r: Option<Vec<u8>>)
    ensures
        match initial_token_at(datagram@) {
            Some(token) => r matches Some(t) && t@ == token,
            None => r is None,
        },
{
    let mut buf = Buf::new(datagram);
    let (first, version, _, _) = next_long_prefix(&mut buf)?;
    if long_packet_type(first, version) != PacketType::Initial {
        return None;
    }
    let n = buf.next_varint()?;
    let token = buf.next_bytes(n)?;
    Some(copy_bytes(token))
}

/// A 32-bit integer in network byte order.
pub open spec fn u32_bytes(v: u32) -> Seq<u8> {
    seq![
        (v / 0x100_0000) as u8,
        ((v / 0x1_0000) % 0x100) as u8,
        ((v / 0x100) % 0x100) as u8,
        (v % 0x100) as u8,
    ]
}

fn put_u32(out: &mut Vec<u8>, v: u32)
    ensures
        final(out)@ == old(out)@ + u32_bytes(v),
{
    out.push((v / 0x100_0000) as u8);
    out.push(((v / 0x1_0000) % 0x100) as u8);
    out.push(((v / 0x100) % 0x100) as u8);
    out.push((v % 0x100) as u8);
    assert(out@ =~= old(out)@ + u32_bytes(v));
}

/// An integer is read back from its bytes.
pub proof fn lemma_take_u32(v: u32, rest: Seq<u8>)
    ensures
        take_u32(u32_bytes(v) + rest) == Some((v, rest)),
{
    let s = u32_bytes(v) + rest;
    assert(s[0] == (v / 0x100_0000) as u8);
    assert(s[1] == ((v / 0x1_0000) % 0x100) as u8);
    assert(s[2] == ((v / 0x100) % 0x100) as u8);
    assert(s[3] == (v % 0x100) as u8);
    let q1 = v / 0x100;
    let q2 = v / 0x1_0000;
    let q3 = v / 0x100_0000;
    assert(q2 == q1 / 0x100);
    assert(q3 == q2 / 0x100);
    assert(s.skip(4) =~= rest);
}

/// The bytes of several versions in turn.
pub open spec fn versions_bytes(versions: Seq<u32>) -> Seq<u8>
    decreases versions.len(),
{
    if versions.len() == 0 {
        Seq::empty()
    } else {
        versions_bytes(versions.drop_last()) + u32_bytes(versions.last())
    }
}

/// The versions that fill `s`, `None` if some bytes are left over.
pub open spec fn versions_at(s: Seq<u8>) -> Option<Seq<u32>>
    decreases s.len(),
{
    if s.len() == 0 {
        Some(Seq::empty())
    } else if s.len() < 4 {
        None
    } else {
        match versions_at(s.skip(4)) {
            None => None,
            Some(rest) => Some(seq![crate::coding::u32_at(s)] + rest),
        }
    }
}

/// The front of a long header.
pub open spec fn long_front_bytes(first: u8, version: u32, dcid: Seq<u8>, scid: Seq<u8>) -> Seq<u8> {
    seq![first] + u32_bytes(version) + seq![dcid.len() as u8] + dcid + seq![scid.len() as u8] + scid
}

fn put_long_front(out: &mut Vec<u8>, first: u8, version: u32, dcid: &[u8], scid: &[u8])
    requires
        dcid@.len() <= 255,
        scid@.len() <= 255,
    ensures
        final(out)@ == old(out)@ + long_front_bytes(first, version, dcid@, scid@),
{
    out.push(first);
    put_u32(out, version);
    out.push(dcid.len() as u8);
    put_bytes(out, dcid);
    out.push(scid.len() as u8);
    put_bytes(out, scid);
    assert(out@ =~= old(out)@ + long_front_bytes(first, version, dcid@, scid@));
}

proof fn lemma_long_front(first: u8, version: u32, dcid: Seq<u8>, scid: Seq<u8>, rest: Seq<u8>)
    requires
        first >= 0x80,
        dcid.len() <= 255,
        scid.len() <= 255,
    ensures
        long_prefix_at(long_front_bytes(first, version, dcid, scid) + rest) == Some(
            LongPrefix { first, version, dcid, scid, rest },
        ),
{
    let s4 = scid + rest;
    let s3 = seq![scid.len() as u8] + s4;
    let s2 = dcid + s3;
    let s1 = seq![dcid.len() as u8] + s2;
    let s0 = u32_bytes(version) + s1;
    let s = seq![first] + s0;
    assert(long_front_bytes(first, version, dcid, scid) + rest =~= s);
    assert(s.skip(1) =~= s0);
    lemma_take_u32(version, s1);
    assert(s1.skip(1) =~= s2);
    lemma_take_bytes(dcid, s3);
    assert(s3.skip(1) =~= s4);
    lemma_take_bytes(scid, rest);
}

/// The bytes of a Version Negotiation packet (RFC 9000 Section 17.2.1).
pub open spec fn version_negotiation_bytes(dcid: Seq<u8>, scid: Seq<u8>, versions: Seq<u32>) -> Seq<
    u8,
> {
    long_front_bytes(0x80, 0, dcid, scid) + versions_bytes(versions)
}

/// A Version Negotiation packet that offers `versions`.
pub fn encode_version_negotiation(dcid: &[u8], scid: &[u8], versions: &[u32]) -> (out: Vec<u8>)
    requires
        dcid@.len() <= 255,
        scid@.len() <= 255,
    ensures
        out@ == version_negotiation_bytes(dcid@, scid@, versions@),
{
    let mut out: Vec<u8> = Vec::new();
    put_long_front(&mut out, 0x80, 0, dcid, scid);
    let ghost front = out@;
    let mut i: usize = 0;
    assert(front =~= front + versions_bytes(versions@.take(0)));
    while i < versions.len()
        invariant
            i <= versions@.len(),
            out@ == front + versions_bytes(versions@.take(i as int)),
        decreases versions@.len() - i,
    {
        put_u32(&mut out, versions[i]);
        assert(versions@.take(i + 1).drop_last() =~= versions@.take(i as int));
        assert(out@ =~= front + versions_bytes(versions@.take(i + 1)));
        i = i + 1;
    }
    assert(versions@.take(versions@.len() as int) =~= versions@);
    assert(front =~= long_front_bytes(0x80, 0, dcid@, scid@));
    out
}

/// The versions that a Version Negotiation packet offers.
pub open spec fn version_negotiation_at(s: Seq<u8>) -> Option<Seq<u32>> {
    match long_prefix_at(s) {
        None => None,
        Some(p) => if p.version != 0 {
            None
        } else {
            versions_at(p.rest)
        },
    }
}

proof fn lemma_versions_cons(v: u32, s: Seq<u8>)
    ensures
        versions_at(u32_bytes(v) + s) == match versions_at(s) {
            Some(rest) => Some(seq![v] + rest),
            None => None,
        },
{
    lemma_take_u32(v, s);
}

/// The versions that a Version Negotiation packet offers. `None` for other packets
/// and malformed ones.
pub fn decode_version_negotiation(packet: &[u8]) -> (r: Option<Vec<u32>>)
    ensures
        match version_negotiation_at(packet@) {
            Some(versions) => r matches Some(v) && v@ == versions,
            None => r is None,
        },
{
    let mut buf = Buf::new(packet);
    let (_, version, _, _) = next_long_prefix(&mut buf)?;
    if version != 0 {
        return None;
    }
    let mut versions: Vec<u32> = Vec::new();
    let ghost whole = versions_at(buf@);
    proof {
        if let Some(r) = versions_at(buf@) {
            assert(Seq::<u32>::empty() + r =~= r);
        }
    }
    while !buf.is_empty()
        invariant
            whole == version_negotiation_at(packet@),
            match versions_at(buf@) {
                Some(rest) => whole == Some(versions@ + rest),
                None => whole is None,
            },
        decreases buf@.len(),
    {
        let ghost before = versions@;
        let ghost s = buf@;
        match next_u32(&mut buf) {
            Some(v) => {
                versions.push(v);
                proof {
                    if let Some(rest) = versions_at(s.skip(4)) {
                        assert(before + (seq![v] + rest) =~= versions@ + rest);
                    }
                }
            },
            None => return None,
        }
    }
    assert(versions@ + Seq::<u32>::empty() =~= versions@);
    Some(versions)
}

proof fn lemma_versions_round_trip(versions: Seq<u32>, tail: Seq<u8>)
    ensures
        versions_at(versions_bytes(versions) + tail) == match versions_at(tail) {
            Some(rest) => Some(versions + rest),
            None => None,
        },
    decreases versions.len(),
{
    if versions.len() == 0 {
        assert(versions_bytes(versions) + tail =~= tail);
        if let Some(rest) = versions_at(tail) {
            assert(versions + rest =~= rest);
        }
    } else {
        let last = versions.last();
        lemma_versions_round_trip(versions.drop_last(), u32_bytes(last) + tail);
        lemma_versions_cons(last, tail);
        assert(versions_bytes(versions) + tail =~= versions_bytes(versions.drop_last()) + (
        u32_bytes(last) + tail));
        if let Some(rest) = versions_at(tail) {
            assert(versions.drop_last() + (seq![last] + rest) =~= versions + rest);
        }
    }
}

/// A client reads back the versions that a server offered, and the packet says that
/// it is one of Version Negotiation, sent to the client's identifier.
pub proof fn law_version_negotiation_round_trip(
    dcid: Seq<u8>,
    scid: Seq<u8>,
    versions: Seq<u32>,
    cid_len: usize,
)
    requires
        dcid.len() <= 255,
        scid.len() <= 255,
    ensures
        version_negotiation_at(version_negotiation_bytes(dcid, scid, versions)) == Some(versions),
        peeked(version_negotiation_bytes(dcid, scid, versions), cid_len) == Some(
            (PacketType::VersionNegotiation, dcid),
        ),
{
    let tail = versions_bytes(versions);
    lemma_long_front(0x80, 0, dcid, scid, tail);
    lemma_versions_round_trip(versions, Seq::empty());
    assert(tail + Seq::<u8>::empty() =~= tail);
    assert(versions + Seq::<u32>::empty() =~= versions);
    let b = version_negotiation_bytes(dcid, scid, versions);
    assert(b[0] == 0x80);
    assert(long_front_at(b) is Some);
}

/// The AES-128-GCM tag over no plaintext and this associated data.
pub uninterp spec fn aes128_gcm_tag(key: Seq<u8>, nonce: Seq<u8>, aad: Seq<u8>) -> Seq<u8>;

/// The most associated data that one AES-GCM call takes: 2^36 bytes.
pub const MAX_AAD: u64 = 0x10_0000_0000;

/// `Aes128Gcm::new` and its `encrypt_in_place_detached` of the aes-gcm crate: the
/// tag that sealing an empty plaintext gives, 16 bytes that depend on the key, the
/// nonce and the associated data alone. The call fails only for data beyond
/// [`MAX_AAD`], which the bound rules out.
#[verifier::external_body]
fn seal_empty(key: &[u8; 16], nonce: &[u8; 12], aad: &[u8]) -> (tag: [u8; 16])
    requires
        aad@.len() <= MAX_AAD,
    ensures
        tag@ == aes128_gcm_tag(key@, nonce@, aad@),
{
    let cipher = aes_gcm::Aes128Gcm::new(key.into());
    match cipher.encrypt_in_place_detached(nonce.into(), aad, &mut []) {
        Ok(tag) => tag.into(),
        Err(_) => [0u8; 16],
    }
}

/// The key of the Retry integrity tag (RFC 9001 Section 5.8).
pub open spec fn retry_key() -> Seq<u8> {
    seq![
        0xbe,
        0x0c,
        0x69,
        0x0b,
        0x9f,
        0x66,
        0x57,
        0x5a,
        0x1d,
        0x76,
        0x6b,
        0x54,
        0xe3,
        0x68,
        0xc8,
        0x4e,
    ]
}

/// The nonce of the Retry integrity tag (RFC 9001 Section 5.8).
pub open spec fn retry_nonce() -> Seq<u8> {
    seq![0x46, 0x15, 0x99, 0xd3, 0x5d, 0x63, 0x2b, 0xf2, 0x23, 0x98, 0x25, 0xbb]
}

/// What the Retry integrity tag covers: the identifier that the client first sent
/// to, preceded by its length, and the packet without the tag.
pub open spec fn retry_pseudo_packet(odcid: Seq<u8>, packet: Seq<u8>) -> Seq<u8> {
    seq![odcid.len() as u8] + odcid + packet
}

/// The integrity tag of a Retry packet that starts with `packet`.
pub open spec fn retry_tag(odcid: Seq<u8>, packet: Seq<u8>) -> Seq<u8> {
    aes128_gcm_tag(retry_key(), retry_nonce(), retry_pseudo_packet(odcid, packet))
}

/// Whether AES-GCM takes what the tag of a Retry packet of `len` bytes covers, for an
/// identifier whose length fits in a byte.
pub open spec fn retry_taggable(odcid: Seq<u8>, len: int) -> bool {
    odcid.len() <= 255 && 1 + odcid.len() + len <= MAX_AAD
}

/// The integrity tag of a Retry packet that starts with `packet`, for the
/// identifier `odcid` that the client first sent to (RFC 9001 Section 5.8).
pub fn compute_retry_integrity_tag(odcid: &[u8], packet: &[u8]) -> (tag: [u8; 16])
    requires
        retry_taggable(odcid@, packet@.len() as int),
    ensures
        tag@ == retry_tag(odcid@, packet@),
{
    let key: [u8; 16] = [
        0xbe,
        0x0c,
        0x69,
        0x0b,
        0x9f,
        0x66,
        0x57,
        0x5a,
        0x1d,
        0x76,
        0x6b,
        0x54,
        0xe3,
        0x68,
        0xc8,
        0x4e,
    ];
    let nonce: [u8; 12] = [
        0x46,
        0x15,
        0x99,
        0xd3,
        0x5d,
        0x63,
        0x2b,
        0xf2,
        0x23,
        0x98,
        0x25,
        0xbb,
    ];
    assert(key@ =~= retry_key());
    assert(nonce@ =~= retry_nonce());
    let mut pseudo: Vec<u8> = Vec::new();
    pseudo.push(odcid.len() as u8);
    put_bytes(&mut pseudo, odcid);
    put_bytes(&mut pseudo, packet);
    assert(pseudo@ =~= retry_pseudo_packet(odcid@, packet@));
    seal_empty(&key, &nonce, pseudo.as_slice())
}

/// Whether a Retry packet ends with the right integrity tag.
pub open spec fn retry_tag_valid(odcid: Seq<u8>, packet: Seq<u8>) -> bool {
    &&& 16 <= packet.len()
    &&& retry_taggable(odcid, packet.len() - 16)
    &&& retry_tag(odcid, packet.take(packet.len() - 16)) == packet.skip(packet.len() - 16)
}

/// Whether `packet`, a Retry packet, ends with the right integrity tag for the
/// identifier `odcid` that the client first sent to.
pub fn verify_retry_integrity_tag(odcid: &[u8], packet: &[u8]) -> (valid: bool)
    ensures
        valid == retry_tag_valid(odcid@, packet@),
{
    if packet.len() < 16 || odcid.len() > 255 || (packet.len() - 16) as u64 > MAX_AAD - 1
        - odcid.len() as u64 {
        return false;
    }
    let (body, tag) = packet.split_at(packet.len() - 16);
    let expected = compute_retry_integrity_tag(odcid, body);
    assert(body@ =~= packet@.take(packet@.len() - 16));
    assert(tag@ =~= packet@.skip(packet@.len() - 16));
    same_bytes(expected.as_slice(), tag)
}

/// The source identifier, destination identifier and token of a Retry packet.
pub open spec fn retry_at(s: Seq<u8>) -> Option<(Seq<u8>, Seq<u8>, Seq<u8>)> {
    match long_prefix_at(s) {
        None => None,
        Some(p) => if long_type(p.first, p.version) != PacketType::Retry || p.rest.len() < 16 {
            None
        } else {
            Some((p.scid, p.dcid, p.rest.take(p.rest.len() - 16)))
        },
    }
}

/// The source identifier, destination identifier and token of a Retry packet.
/// `None` for other packets and truncated ones.
pub fn parse_retry_packet(packet: &[u8]) -> (r: Option<(Vec<u8>, Vec<u8>, Vec<u8>)>)
    ensures
        match retry_at(packet@) {
            Some((scid, dcid, token)) => r matches Some((s, d, t)) && s@ == scid && d@ == dcid
                && t@ == token && scid.len() <= 255,
            None => r is None,
        },
{
    let mut buf = Buf::new(packet);
    let (first, version, dcid, scid) = next_long_prefix(&mut buf)?;
    if long_packet_type(first, version) != PacketType::Retry {
        return None;
    }
    let n: usize = buf.remaining();
    if n < 16 {
        return None;
    }
    let token = buf.next_bytes((n - 16) as u64)?;
    Some((copy_bytes(scid), copy_bytes(dcid), copy_bytes(token)))
}

/// The bytes of a Retry packet without its tag.
pub open spec fn retry_body(scid: Seq<u8>, dcid: Seq<u8>, token: Seq<u8>) -> Seq<u8> {
    long_front_bytes(0xf0, QUIC_V1, dcid, scid) + token
}

/// Whether a Retry packet can be written: identifiers as long as the version
/// allows, and a token that leaves the packet within what AES-GCM takes.
pub open spec fn retry_encodable(
    scid: Seq<u8>,
    dcid: Seq<u8>,
    odcid: Seq<u8>,
    token: Seq<u8>,
) -> bool {
    scid.len() <= 20 && dcid.len() <= 20 && retry_taggable(
        odcid,
        retry_body(scid, dcid, token).len() as int,
    )
}

/// The bytes of a Retry packet (RFC 9000 Section 17.2.5).
pub open spec fn retry_bytes(
    scid: Seq<u8>,
    dcid: Seq<u8>,
    odcid: Seq<u8>,
    token: Seq<u8>,
) -> Seq<u8> {
    retry_body(scid, dcid, token) + retry_tag(odcid, retry_body(scid, dcid, token))
}

/// A Retry packet with `token`, from `scid` to `dcid`, in answer to a packet that
/// was sent to `odcid`. `None` if an identifier or the token is too long.
///
/// The client that sent to `odcid` accepts the packet, and reads back the server's
/// identifier and the token.
pub fn encode_retry_packet(scid: &[u8], dcid: &[u8], odcid: &[u8], token: &[u8]) -> (r: Option<
    Vec<u8>,
>)
    ensures
        if retry_encodable(scid@, dcid@, odcid@, token@) {
            &&& r matches Some(p)
            &&& p@ == retry_bytes(scid@, dcid@, odcid@, token@)
            &&& retry_tag_valid(odcid@, p@)
            &&& retry_at(p@) == Some((scid@, dcid@, token@))
        } else {
            r is None
        },
{
    if scid.len() > 20 || dcid.len() > 20 || odcid.len() > 255 {
        return None;
    }
    // One byte of flags, four of the version, and one of length for each identifier.
    let front: u64 = 7 + scid.len() as u64 + dcid.len() as u64;
    if token.len() as u64 > MAX_AAD - 1 - odcid.len() as u64 - front {
        return None;
    }
    let mut out: Vec<u8> = Vec::new();
    put_long_front(&mut out, 0xf0, QUIC_V1, dcid, scid);
    put_bytes(&mut out, token);
    assert(out@ =~= retry_body(scid@, dcid@, token@));
    let tag = compute_retry_integrity_tag(odcid, out.as_slice());
    put_bytes(&mut out, tag.as_slice());
    proof {
        lemma_retry_round_trip(scid@, dcid@, odcid@, token@);
    }
    Some(out)
}

proof fn lemma_retry_round_trip(
    scid: Seq<u8>,
    dcid: Seq<u8>,
    odcid: Seq<u8>,
    token: Seq<u8>,
)
    requires
        retry_encodable(scid, dcid, odcid, token),
        retry_tag(odcid, retry_body(scid, dcid, token)).len() == 16,
    ensures
        retry_tag_valid(odcid, retry_bytes(scid, dcid, odcid, token)),
        retry_at(retry_bytes(scid, dcid, odcid, token)) == Some((scid, dcid, token)),
{
    let body = retry_body(scid, dcid, token);
    let tag = retry_tag(odcid, body);
    let p = body + tag;
    assert(p.take(p.len() - 16) =~= body);
    assert(p.skip(p.len() - 16) =~= tag);
    lemma_long_front(0xf0, QUIC_V1, dcid, scid, token + tag);
    assert(p =~= long_front_bytes(0xf0, QUIC_V1, dcid, scid) + (token + tag));
    assert((token + tag).take(token.len() as int) =~= token);
}

/// How many packet numbers an encoding of `len` bytes tells apart.
pub open spec fn pn_window(len: nat) -> int {
    if len <= 1 {
        0x100
    } else if len == 2 {
        0x1_0000
    } else if len == 3 {
        0x100_0000
    } else {
        0x1_0000_0000
    }
}

/// The packet number that comes next after `largest`.
pub open spec fn expected_pn(largest: Option<u64>) -> int {
    match largest {
        Some(l) => l + 1,
        None => 0,
    }
}

/// The packet number closest to the one expected next whose low bytes are
/// `truncated` (RFC 9000 Section A.3).
pub open spec fn decoded_pn(largest: Option<u64>, truncated: int, len: nat) -> int {
    let expected = expected_pn(largest);
    let window = pn_window(len);
    let candidate = expected - expected % window + truncated;
    if candidate + window / 2 <= expected && candidate + window < 0x4000_0000_0000_0000 {
        candidate + window
    } else if candidate > expected + window / 2 && candidate >= window {
        candidate - window
    } else {
        candidate
    }
}

/// The full packet number of a packet whose low `len` bytes are `truncated`.
pub fn decode_packet_number(largest: Option<u64>, truncated: u32, len: u8) -> (pn: u64)
    requires
        1 <= len <= 4,
        truncated < pn_window(len as nat),
        largest matches Some(l) ==> l < 0x8000_0000_0000_0000,
    ensures
        pn == decoded_pn(largest, truncated as int, len as nat),
{
    let expected: u64 = match largest {
        Some(l) => l + 1,
        None => 0,
    };
    let window: u64 = match len {
        1 => 0x100,
        2 => 0x1_0000,
        3 => 0x100_0000,
        _ => 0x1_0000_0000,
    };
    assert(expected % window <= expected) by {
        vstd::arithmetic::div_mod::lemma_mod_decreases(expected as nat, window as nat);
    }
    let candidate: u64 = expected - expected % window + truncated as u64;
    if candidate + window / 2 <= expected && candidate + window < 0x4000_0000_0000_0000 {
        candidate + window
    } else if candidate > expected + window / 2 && candidate >= window {
        candidate - window
    } else {
        candidate
    }
}

/// A packet number is recovered from its low bytes as long as it is less than half a
/// window away from the one expected.
pub proof fn law_packet_number_recovered(largest: Option<u64>, pn: u64, len: nat)
    requires
        1 <= len <= 4,
        pn < 0x4000_0000_0000_0000,
        largest matches Some(l) ==> l < 0x4000_0000_0000_0000,
        pn + pn_window(len) / 2 > expected_pn(largest),
        pn <= expected_pn(largest) + pn_window(len) / 2,
    ensures
        decoded_pn(largest, pn as int % pn_window(len), len) == pn,
{
    lemma_window_offset(expected_pn(largest), pn as int, pn_window(len));
}

/// Replacing the low bytes of `e` by those of a number at most half a window away
/// gives that number, or misses it by one window.
proof fn lemma_window_offset(e: int, pn: int, w: int)
    requires
        0 <= e,
        0 <= pn,
        w >= 0x100,
        w % 2 == 0,
        pn + w / 2 > e,
        pn <= e + w / 2,
    ensures
        ({
            let c = e - e % w + pn % w;
            c == pn || c + w == pn || c == pn + w
        }),
        0 <= pn % w < w,
        0 <= e % w < w,
{
    vstd::arithmetic::div_mod::lemma_fundamental_div_mod(e, w);
    vstd::arithmetic::div_mod::lemma_fundamental_div_mod(pn, w);
    vstd::arithmetic::div_mod::lemma_mod_bound(e, w);
    vstd::arithmetic::div_mod::lemma_mod_bound(pn, w);
    let k = pn / w - e / w;
    vstd::arithmetic::mul::lemma_mul_is_distributive_sub(w, pn / w, e / w);
    assert(w * k == (pn - pn % w) - (e - e % w));
    assert(-1 <= k <= 1) by (nonlinear_arith)
        requires
            w > 0,
            -2 * w < w * k < 2 * w,
    ;
    assert(k == -1 || k == 0 || k == 1);
    assert(w * 1 == w);
    assert(w * 0 == 0);
    assert(w * (-1) == -w) by (nonlinear_arith);
}

/// Where the protected part of a packet lies.
#[verifier::ext_equal]
pub struct Protected {
    /// The type of the packet.
    pub packet_type: PacketType,
    /// The destination connection identifier.
    pub dcid: Seq<u8>,
    /// The source connection identifier.
    pub scid: Seq<u8>,
    /// Where the packet number field starts.
    pub pn_offset: int,
    /// Where the packet ends.
    pub end: int,
}

/// Whether there is room for the longest packet number and a sample after it, so
/// that header protection can be taken off (RFC 9001 Section 5.4.2).
pub open spec fn samplable(pn_offset: int, end: int) -> bool {
    pn_offset + 4 + SAMPLE_LEN <= end
}

/// The protected part of an Initial, 0-RTT or Handshake packet of this version.
pub open spec fn protected_long_at(s: Seq<u8>) -> Option<Protected> {
    match long_prefix_at(s) {
        None => None,
        Some(p) => {
            let packet_type = long_type(p.first, p.version);
            if p.version != QUIC_V1 || packet_type == PacketType::Retry {
                None
            } else {
                match if packet_type == PacketType::Initial {
                    crate::frame::take_counted(p.rest)
                } else {
                    Some((Seq::empty(), p.rest))
                } {
                    None => None,
                    Some((token, s1)) => match take_varint(s1) {
                        None => None,
                        Some((len, s2)) => {
                            let pn_offset = s.len() - s2.len();
                            if len > s2.len() || !samplable(pn_offset, pn_offset + len) {
                                None
                            } else {
                                Some(
                                    Protected {
                                        packet_type,
                                        dcid: p.dcid,
                                        scid: p.scid,
                                        pn_offset,
                                        end: pn_offset + len,
                                    },
                                )
                            }
                        },
                    },
                }
            }
        },
    }
}

/// The protected part of a packet with a long header.
#[derive(Debug)]
pub struct ProtectedLong {
    /// The type of the packet.
    pub packet_type: PacketType,
    /// The destination connection identifier.
    pub dcid: Vec<u8>,
    /// The source connection identifier.
    pub scid: Vec<u8>,
    /// Where the packet number field starts.
    pub pn_offset: usize,
    /// Where the packet ends.
    pub end: usize,
}

impl View for ProtectedLong {
    type V = Protected;

    open spec fn view(&self) -> Protected {
        Protected {
            packet_type: self.packet_type,
            dcid: self.dcid@,
            scid: self.scid@,
            pn_offset: self.pn_offset as int,
            end: self.end as int,
        }
    }
}

/// Finds the protected part of an Initial, 0-RTT or Handshake packet of this
/// version at the front of `packet`. `None` for other packets and truncated ones.
pub fn parse_protected_long(packet: &[u8]) -> (r: Option<ProtectedLong>)
    ensures
        match protected_long_at(packet@) {
            Some(p) => r matches Some(q) && q@ == p && 1 <= p.pn_offset && samplable(
                p.pn_offset,
                p.end,
            ) && p.end <= packet@.len(),
            None => r is None,
        },
{
    let mut buf = Buf::new(packet);
    let (first, version, dcid, scid) = next_long_prefix(&mut buf)?;
    let packet_type = long_packet_type(first, version);
    if version != QUIC_V1 || packet_type == PacketType::Retry {
        return None;
    }
    proof {
        lemma_prefix_shrinks(packet@);
    }
    if packet_type == PacketType::Initial {
        let ghost s = buf@;
        proof {
            lemma_take_varint_bounds(s);
        }
        let n = buf.next_varint()?;
        let _ = buf.next_bytes(n)?;
    }
    let len = buf.next_varint()?;
    let rest: usize = buf.remaining();
    let pn_offset: usize = packet.len() - rest;
    if len > rest as u64 || len < 4 + SAMPLE_LEN as u64 {
        return None;
    }
    let end: usize = pn_offset + len as usize;
    Some(
        ProtectedLong {
            packet_type,
            dcid: copy_bytes(dcid),
            scid: copy_bytes(scid),
            pn_offset,
            end,
        },
    )
}

/// The prefix of a long header takes at least seven bytes.
proof fn lemma_prefix_shrinks(s: Seq<u8>)
    ensures
        long_prefix_at(s) matches Some(p) ==> p.rest.len() + 7 <= s.len(),
{
}

/// A protected packet lies within the bytes it was found in.
pub proof fn lemma_protected_bounds(s: Seq<u8>)
    ensures
        protected_long_at(s) matches Some(p) ==> 1 <= p.pn_offset && samplable(p.pn_offset, p.end)
            && p.end <= s.len(),
{
    lemma_prefix_shrinks(s);
    match long_prefix_at(s) {
        Some(p) => {
            lemma_take_varint_bounds(p.rest);
            match crate::frame::take_counted(p.rest) {
                Some((token, s1)) => lemma_take_varint_bounds(s1),
                None => {},
            }
        },
        None => {},
    }
}

/// The number in the first `len` bytes of a packet number field.
pub open spec fn pn_value(pn: Seq<u8>, len: nat) -> int {
    if len <= 1 {
        pn[0] as int
    } else if len == 2 {
        pn[0] * 0x100 + pn[1]
    } else if len == 3 {
        pn[0] * 0x1_0000 + pn[1] * 0x100 + pn[2]
    } else {
        pn[0] * 0x100_0000 + pn[1] * 0x1_0000 + pn[2] * 0x100 + pn[3]
    }
}

/// How many bytes the packet number takes, by the first byte in the clear.
pub open spec fn pn_len(first: u8) -> nat {
    (first % 4 + 1) as nat
}

/// A packet whose header is in the clear.
#[verifier::ext_equal]
pub struct Clear {
    /// The packet number.
    pub pn: u64,
    /// The header.
    pub header: Seq<u8>,
    /// The protected payload.
    pub payload: Seq<u8>,
}

/// The packet at the front of `s` with its header in the clear, given its first byte
/// and packet number field without protection. `None` if the packet number is out
/// of range.
pub open spec fn clear_at(
    s: Seq<u8>,
    pn_offset: int,
    end: int,
    first: u8,
    pn: Seq<u8>,
    largest: Option<u64>,
) -> Option<Clear> {
    let len = pn_len(first);
    let number = decoded_pn(largest, pn_value(pn, len), len);
    if number >= crate::coding::VARINT_LIMIT {
        None
    } else {
        Some(
            Clear {
                pn: number as u64,
                header: seq![first] + s.subrange(1, pn_offset) + pn.take(len as int),
                payload: s.subrange(pn_offset + len, end),
            },
        )
    }
}

/// A packet whose header is in the clear.
#[derive(Debug)]
pub struct ClearPacket {
    /// The packet number.
    pub pn: u64,
    /// The header.
    pub header: Vec<u8>,
    /// The protected payload.
    pub payload: Vec<u8>,
}

impl View for ClearPacket {
    type V = Clear;

    open spec fn view(&self) -> Clear {
        Clear { pn: self.pn, header: self.header@, payload: self.payload@ }
    }
}

/// A part of a byte string.
fn copy_range(bytes: &[u8], from: usize, to: usize) -> (v: Vec<u8>)
    requires
        from <= to <= bytes@.len(),
    ensures
        v@ == bytes@.subrange(from as int, to as int),
{
    let (front, _) = bytes.split_at(to);
    let (_, part) = front.split_at(from);
    let v = copy_bytes(part);
    assert(v@ =~= bytes@.subrange(from as int, to as int));
    v
}

/// The packet at the front of `packet` with its header in the clear, given its first
/// byte and packet number field without protection. `None` if the packet number is
/// out of range.
pub fn clear_packet(
    packet: &[u8],
    pn_offset: usize,
    end: usize,
    first: u8,
    pn: &[u8; 4],
    largest: Option<u64>,
) -> (r: Option<ClearPacket>)
    requires
        1 <= pn_offset,
        samplable(pn_offset as int, end as int),
        end <= packet@.len(),
        largest matches Some(l) ==> l < crate::coding::VARINT_LIMIT,
    ensures
        match clear_at(packet@, pn_offset as int, end as int, first, pn@, largest) {
            Some(c) => r matches Some(p) && p@ == c && c.pn < crate::coding::VARINT_LIMIT,
            None => r is None,
        },
{
    let len: u8 = first % 4 + 1;
    let truncated: u32 = match len {
        1 => pn[0] as u32,
        2 => pn[0] as u32 * 0x100 + pn[1] as u32,
        3 => pn[0] as u32 * 0x1_0000 + pn[1] as u32 * 0x100 + pn[2] as u32,
        _ => pn[0] as u32 * 0x100_0000 + pn[1] as u32 * 0x1_0000 + pn[2] as u32 * 0x100
            + pn[3] as u32,
    };
    let number: u64 = decode_packet_number(largest, truncated, len);
    if number >= crate::coding::VARINT_LIMIT {
        return None;
    }
    let mut header: Vec<u8> = Vec::new();
    header.push(first);
    let middle = copy_range(packet, 1, pn_offset);
    put_bytes(&mut header, middle.as_slice());
    let field = copy_range(pn.as_slice(), 0, len as usize);
    put_bytes(&mut header, field.as_slice());
    assert(field@ =~= pn@.take(len as int));
    assert(header@ =~= seq![first] + packet@.subrange(1, pn_offset as int) + pn@.take(len as int));
    let payload = copy_range(packet, pn_offset + len as usize, end);
    Some(ClearPacket { pn: number, header, payload })
}

/// The sample of the payload that header protection is taken off with.
pub open spec fn sample_of(s: Seq<u8>, pn_offset: int) -> Seq<u8> {
    s.subrange(pn_offset + 4, pn_offset + 4 + SAMPLE_LEN)
}

/// The sample of the payload, and the packet number field at its longest.
pub fn sample_and_field(packet: &[u8], pn_offset: usize) -> (r: (Vec<u8>, [u8; 4]))
    requires
        samplable(pn_offset as int, packet@.len() as int),
    ensures
        r.0@ == sample_of(packet@, pn_offset as int),
        r.1@ == packet@.subrange(pn_offset as int, pn_offset + 4),
{
    assert(packet@.len() == packet.len());
    let sample = copy_range(packet, pn_offset + 4, pn_offset + 4 + SAMPLE_LEN);
    let field = [
        packet[pn_offset],
        packet[pn_offset + 1],
        packet[pn_offset + 2],
        packet[pn_offset + 3],
    ];
    assert(field@ =~= packet@.subrange(pn_offset as int, pn_offset + 4));
    (sample, field)
}

/// How a long header is laid out (RFC 8999 Section 5.1): the first byte, four bytes of
/// version with the most significant first, then each identifier behind one byte that
/// holds its length, the destination before the source. Version 0 marks Version
/// Negotiation; else two bits of the first byte tell the type.
pub proof fn law_long_header_layout(
    first: u8,
    v3: u8,
    v2: u8,
    v1: u8,
    v0: u8,
    dcid: Seq<u8>,
    scid: Seq<u8>,
    rest: Seq<u8>,
    cid_len: usize,
)
    requires
        first >= 128,
        dcid.len() <= 255,
        scid.len() <= 255,
    ensures
        ({
            let s = seq![first, v3, v2, v1, v0, dcid.len() as u8] + dcid + seq![scid.len() as u8]
                + scid + rest;
            let version = v3 * 16777216 + v2 * 65536 + v1 * 256 + v0;
            let bits = (first % 64) / 16;
            &&& long_prefix_at(s) matches Some(p) && p.first == first && p.version == version
                && p.dcid == dcid && p.scid == scid && p.rest == rest
            &&& peeked(s, cid_len) matches Some((ty, to)) && to == dcid && (version == 0 ==> ty
                == PacketType::VersionNegotiation) && (version != 0 && bits == 0 ==> ty
                == PacketType::Initial) && (version != 0 && bits == 1 ==> ty == PacketType::ZeroRtt)
                && (version != 0 && bits == 2 ==> ty == PacketType::Handshake) && (version != 0
                && bits == 3 ==> ty == PacketType::Retry)
        }),
{
    let s4 = scid + rest;
    let s3 = seq![scid.len() as u8] + s4;
    let s2 = dcid + s3;
    let s1 = seq![dcid.len() as u8] + s2;
    let s0 = seq![v3, v2, v1, v0] + s1;
    let s = seq![first] + s0;
    assert(seq![first, v3, v2, v1, v0, dcid.len() as u8] + dcid + seq![scid.len() as u8] + scid
        + rest =~= s);
    assert(s.skip(1) =~= s0);
    assert(s0.skip(4) =~= s1);
    assert(s1.skip(1) =~= s2);
    lemma_take_bytes(dcid, s3);
    assert(s3.skip(1) =~= s4);
    lemma_take_bytes(scid, rest);
}

/// How a short header starts: a first byte below 128, then the identifier, whose length
/// the reader must know.
pub proof fn law_short_header_layout(first: u8, dcid: Seq<u8>, rest: Seq<u8>, cid_len: usize)
    requires
        first < 128,
        dcid.len() == cid_len,
    ensures
        peeked(seq![first] + dcid + rest, cid_len) == Some((PacketType::Short, dcid)),
        long_prefix_at(seq![first] + dcid + rest) is None,
{
    let s = seq![first] + dcid + rest;
    assert(s.skip(1) =~= dcid + rest);
    lemma_take_bytes(dcid, rest);
}

/// The token of an Initial packet stands behind its length, right after the identifiers.
pub proof fn law_initial_token_layout(s: Seq<u8>, token: Seq<u8>, tail: Seq<u8>)
    requires
        token.len() < 0x4000_0000_0000_0000,
        long_prefix_at(s) matches Some(p) && p.version != 0 && (p.first % 64) / 16 == 0 && p.rest
            == crate::coding::varint_bytes(token.len() as u64) + token + tail,
    ensures
        initial_token_at(s) == Some(token),
{
    let p = long_prefix_at(s)->Some_0;
    crate::coding::lemma_take_varint(token.len() as u64, token + tail);
    assert(p.rest =~= crate::coding::varint_bytes(token.len() as u64) + (token + tail));
    lemma_take_bytes(token, tail);
}

/// A Version Negotiation packet that offers version 1 is a long header with version 0, and
/// four bytes that name the version.
pub proof fn law_version_negotiation_layout(dcid: Seq<u8>, scid: Seq<u8>)
    ensures
        version_negotiation_bytes(dcid, scid, seq![1u32]) =~= seq![
            128u8,
            0u8,
            0u8,
            0u8,
            0u8,
            dcid.len() as u8,
        ] + dcid + seq![scid.len() as u8] + scid + seq![0u8, 0u8, 0u8, 1u8],
{
    reveal_with_fuel(versions_bytes, 2);
    assert(seq![1u32].drop_last() =~= Seq::<u32>::empty());
}

/// What follows the identifiers of a packet of version 1 that is protected: in an Initial
/// packet the token behind its length, in all of them the length of the rest, then the packet
/// number and the payload, which end the packet. What follows belongs to the next packet. A
/// packet too short for a sample behind four bytes of packet number is not one.
pub proof fn law_protected_layout(
    first: u8,
    dcid: Seq<u8>,
    scid: Seq<u8>,
    token: Seq<u8>,
    body: Seq<u8>,
    next: Seq<u8>,
)
    requires
        first >= 128,
        (first % 64) / 16 != 3,
        (first % 64) / 16 != 0 ==> token.len() == 0,
        dcid.len() <= 255,
        scid.len() <= 255,
        token.len() < 0x4000_0000_0000_0000,
        body.len() < 0x4000_0000_0000_0000,
    ensures
        ({
            let front = seq![first, 0u8, 0u8, 0u8, 1u8, dcid.len() as u8] + dcid
                + seq![scid.len() as u8] + scid;
            let bits = (first % 64) / 16;
            let length = crate::coding::varint_bytes(body.len() as u64);
            let head = if bits == 0 {
                front + crate::coding::varint_bytes(token.len() as u64) + token + length
            } else {
                front + length
            };
            let s = head + body + next;
            &&& body.len() < 20 ==> protected_long_at(s) is None
            &&& body.len() >= 20 ==> (protected_long_at(s) matches Some(h) && h.dcid == dcid
                && h.scid == scid && h.pn_offset == head.len() && h.end == head.len() + body.len()
                && (bits == 0 ==> h.packet_type == PacketType::Initial) && (bits == 1
                ==> h.packet_type == PacketType::ZeroRtt) && (bits == 2 ==> h.packet_type
                == PacketType::Handshake))
        }),
{
    let front = seq![first, 0u8, 0u8, 0u8, 1u8, dcid.len() as u8] + dcid + seq![scid.len() as u8]
        + scid;
    let bits = (first % 64) / 16;
    let length = crate::coding::varint_bytes(body.len() as u64);
    let counted = crate::coding::varint_bytes(token.len() as u64);
    let head = if bits == 0 {
        front + counted + token + length
    } else {
        front + length
    };
    let s = head + body + next;
    let s1 = length + (body + next);
    let rest = if bits == 0 {
        counted + (token + s1)
    } else {
        s1
    };
    assert(s =~= front + rest);
    law_long_header_layout(first, 0, 0, 0, 1, dcid, scid, rest, 8);
    crate::coding::lemma_take_varint(body.len() as u64, body + next);
    if bits == 0 {
        crate::coding::lemma_take_varint(token.len() as u64, token + s1);
        lemma_take_bytes(token, s1);
    }
}

/// What a header in the clear says: the two low bits of the first byte give the length of the
/// packet number less one; its bytes, the most significant first, end the header, which is
/// what the payload is bound to, and the payload starts behind them.
pub proof fn law_clear_layout(
    s: Seq<u8>,
    pn_offset: int,
    end: int,
    first: u8,
    pn: Seq<u8>,
    largest: Option<u64>,
)
    requires
        1 <= pn_offset,
        pn_offset + 4 <= end <= s.len(),
        pn.len() == 4,
        clear_at(s, pn_offset, end, first, pn, largest) is Some,
        largest matches Some(l) ==> l < 0x4000_0000_0000_0000,
    ensures
        ({
            let c = clear_at(s, pn_offset, end, first, pn, largest)->Some_0;
            let n = first % 4;
            &&& n == 0 ==> c.pn == decoded_pn(largest, pn[0] as int, 1) && c.header
                == s.take(pn_offset).update(0, first).push(pn[0])
            &&& n == 1 ==> c.pn == decoded_pn(largest, pn[0] * 256 + pn[1], 2) && c.header
                == s.take(pn_offset).update(0, first).push(pn[0]).push(pn[1])
            &&& n == 2 ==> c.pn == decoded_pn(largest, pn[0] * 65536 + pn[1] * 256 + pn[2], 3)
                && c.header == s.take(pn_offset).update(0, first).push(pn[0]).push(pn[1]).push(
                pn[2],
            )
            &&& n == 3 ==> c.pn == decoded_pn(
                largest,
                pn[0] * 16777216 + pn[1] * 65536 + pn[2] * 256 + pn[3],
                4,
            ) && c.header == s.take(pn_offset).update(0, first).push(pn[0]).push(pn[1]).push(
                pn[2],
            ).push(pn[3])
            &&& c.payload == s.subrange(pn_offset + 1 + n, end)
        }),
{
    let c = clear_at(s, pn_offset, end, first, pn, largest)->Some_0;
    let n = first % 4;
    let plain = s.take(pn_offset).update(0, first);
    assert(plain =~= seq![first] + s.subrange(1, pn_offset));
    assert(decoded_pn(largest, pn_value(pn, pn_len(first)), pn_len(first)) >= 0) by {
        lemma_decoded_nonnegative(largest, pn_value(pn, pn_len(first)), pn_len(first));
    }
    if n == 0 {
        assert(c.header =~= plain.push(pn[0]));
    } else if n == 1 {
        assert(c.header =~= plain.push(pn[0]).push(pn[1]));
    } else if n == 2 {
        assert(c.header =~= plain.push(pn[0]).push(pn[1]).push(pn[2]));
    } else {
        assert(c.header =~= plain.push(pn[0]).push(pn[1]).push(pn[2]).push(pn[3]));
    }
}

proof fn lemma_decoded_nonnegative(largest: Option<u64>, truncated: int, len: nat)
    requires
        truncated >= 0,
    ensures
        decoded_pn(largest, truncated, len) >= 0,
{
    let expected = expected_pn(largest);
    let window = pn_window(len);
    vstd::arithmetic::div_mod::lemma_mod_decreases(expected as nat, window as nat);
}

/// The sample is the sixteen bytes that start four behind the start of the packet number.
pub proof fn law_sample_layout(before: Seq<u8>, field: Seq<u8>, sample: Seq<u8>, after: Seq<u8>)
    requires
        field.len() == 4,
        sample.len() == 16,
    ensures
        sample_of(before + field + sample + after, before.len() as int) == sample,
        samplable(before.len() as int, before.len() as int + 20),
        !samplable(before.len() as int, before.len() as int + 19),
{
    assert(sample_of(before + field + sample + after, before.len() as int) =~= sample);
}

/// A Retry packet is a long header of version 1 with the two type bits set, the token, and a
/// tag of sixteen bytes, which the sender computes over the client's first destination and
/// all that comes before the tag.
pub proof fn law_retry_layout(
    scid: Seq<u8>,
    dcid: Seq<u8>,
    odcid: Seq<u8>,
    token: Seq<u8>,
    tag: Seq<u8>,
)
    requires
        scid.len() <= 255,
        dcid.len() <= 255,
        tag.len() == 16,
    ensures
        ({
            let body = seq![240u8, 0u8, 0u8, 0u8, 1u8, dcid.len() as u8] + dcid
                + seq![scid.len() as u8] + scid + token;
            &&& retry_at(body + tag) == Some((scid, dcid, token))
            &&& retry_bytes(scid, dcid, odcid, token) == body + aes128_gcm_tag(
                retry_key(),
                retry_nonce(),
                seq![odcid.len() as u8] + odcid + body,
            )
            &&& retry_tag_valid(odcid, body + tag) <==> odcid.len() <= 255 && 1 + odcid.len()
                + body.len() <= MAX_AAD && tag == aes128_gcm_tag(
                retry_key(),
                retry_nonce(),
                seq![odcid.len() as u8] + odcid + body,
            )
        }),
{
    let body = seq![240u8, 0u8, 0u8, 0u8, 1u8, dcid.len() as u8] + dcid + seq![scid.len() as u8]
        + scid + token;
    let whole = body + tag;
    law_long_header_layout(240, 0, 0, 0, 1, dcid, scid, token + tag, 8);
    assert(whole =~= seq![240u8, 0u8, 0u8, 0u8, 1u8, dcid.len() as u8] + dcid
        + seq![scid.len() as u8] + scid + (token + tag));
    assert((token + tag).take((token + tag).len() - 16) =~= token);
    assert(retry_body(scid, dcid, token) =~= body);
    assert(whole.take(whole.len() - 16) =~= body);
    assert(whole.skip(whole.len() - 16) =~= tag);
}

/// How far a packet number may be from the one expected for its low bytes to tell it: less
/// than 128 above and no more than 128 below for one byte, and so on by 256 for each further
/// byte.
pub proof fn law_packet_number_reach(largest: u64, pn: u64)
    requires
        largest < 0x4000_0000_0000_0000,
        pn < 0x4000_0000_0000_0000,
    ensures
        largest + 1 - 128 < pn <= largest + 1 + 128 ==> decoded_pn(Some(largest), pn as int % 256, 1)
            == pn,
        largest + 1 - 32768 < pn <= largest + 1 + 32768 ==> decoded_pn(
            Some(largest),
            pn as int % 65536,
            2,
        ) == pn,
        largest + 1 - 8388608 < pn <= largest + 1 + 8388608 ==> decoded_pn(
            Some(largest),
            pn as int % 16777216,
            3,
        ) == pn,
        largest + 1 - 2147483648 < pn <= largest + 1 + 2147483648 ==> decoded_pn(
            Some(largest),
            pn as int % 4294967296,
            4,
        ) == pn,
        pn < 128 ==> decoded_pn(None, pn as int, 1) == pn,
{
    if largest + 1 - 128 < pn <= largest + 1 + 128 {
        law_packet_number_recovered(Some(largest), pn, 1);
    }
    if largest + 1 - 32768 < pn <= largest + 1 + 32768 {
        law_packet_number_recovered(Some(largest), pn, 2);
    }
    if largest + 1 - 8388608 < pn <= largest + 1 + 8388608 {
        law_packet_number_recovered(Some(largest), pn, 3);
    }
    if largest + 1 - 2147483648 < pn <= largest + 1 + 2147483648 {
        law_packet_number_recovered(Some(largest), pn, 4);
    }
    if pn < 128 {
        law_packet_number_recovered(None, pn, 1);
    }
}

} // verus!
