//! Identifiers for Retry packets.
use crate::packet::{
    encode_retry_packet, retry_at, retry_bytes, retry_encodable, retry_tag_valid,
};
use crate::session::{opt_bytes, RandomSource};
use vstd::prelude::*;

verus! {

/// Byte `i` of the identifier that is made from the clock.
pub open spec fn clock_byte(nanos: u32, i: int) -> u8 {
    ((nanos + i * 0x9e37_79b9) % 256) as u8
}

/// The identifier of a Retry packet: the random bytes that were drawn for it, else
/// one made from the clock.
pub open spec fn retry_scid(random: Option<Seq<u8>>, nanos: u32) -> Seq<u8> {
    match random {
        Some(bytes) => bytes,
        None => Seq::new(8, |i: int| clock_byte(nanos, i)),
    }
}

/// The identifier made from the clock, which reads `nanos` below the second. It does
/// not fail, and is not hard to guess.
pub fn fallback_scid(nanos: u32) -> (scid: Vec<u8>)
    ensures
        scid@ == retry_scid(None, nanos),
{
    let mut scid: Vec<u8> = Vec::new();
    let mut i: u32 = 0;
    while i < 8
        invariant
            i <= 8,
            scid@ == Seq::new(i as nat, |j: int| clock_byte(nanos, j)),
        decreases 8 - i,
    {
        let sum: u64 = nanos as u64 + i as u64 * 0x9e37_79b9;
        scid.push((sum % 256) as u8);
        i = i + 1;
        assert(scid@ =~= Seq::new(i as nat, |j: int| clock_byte(nanos, j)));
    }
    scid
}

/// The identifier of a Retry packet, given the random bytes that were drawn for it:
/// those bytes, or where the generator failed, one made from the clock, which reads
/// `nanos` below the second.
pub fn scid_from_draw(random: Option<Vec<u8>>, nanos: u32) -> (scid: Vec<u8>)
    requires
        random matches Some(b) ==> b@.len() == 8,
    ensures
        scid@ == retry_scid(opt_bytes(random), nanos),
        scid@.len() == 8,
{
    match random {
        Some(bytes) => bytes,
        None => fallback_scid(nanos),
    }
}

/// Generate a random 8-byte SCID for a Retry packet: [`scid_from_draw`] of eight bytes
/// that are drawn for it. Which bytes come is a matter of chance.
pub fn random_scid_for_retry(source: &mut RandomSource, nanos: u32) -> (scid: Vec<u8>)
    ensures
        ({
            let draw = final(source)@.last();
            &&& final(source)@ == old(source)@.push(draw)
            &&& draw.len == 8
            &&& scid@ == retry_scid(draw.bytes, nanos)
        }),
        scid@.len() == 8,
{
    let random = source.draw(8);
    let ghost drawn = opt_bytes(random);
    let scid = scid_from_draw(random, nanos);
    assert(source@.last().bytes == drawn);
    scid
}

/// The Retry packet that answers a client whose Initial packet went from `client_scid`
/// to `client_dcid`: it goes back to the client's identifier, from `retry_scid`, and its
/// integrity tag covers the identifier that the client chose (RFC 9001 Section 5.8).
/// `None` if it cannot be written.
pub fn retry_answer(
    client_dcid: &[u8],
    client_scid: &[u8],
    retry_scid: &[u8],
    token: &[u8],
) -> (packet: Option<Vec<u8>>)
    ensures
        if retry_encodable(retry_scid@, client_scid@, client_dcid@, token@) {
            &&& packet matches Some(p)
            &&& p@ == retry_bytes(retry_scid@, client_scid@, client_dcid@, token@)
            &&& retry_tag_valid(client_dcid@, p@)
            &&& retry_at(p@) == Some((retry_scid@, client_scid@, token@))
        } else {
            packet is None
        },
{
    encode_retry_packet(retry_scid, client_scid, client_dcid, token)
}

/// The identifier of a Retry is the bytes that were drawn; without any it has eight bytes, of
/// which each differs from the one before by a fixed step, starting at the low byte of the
/// clock.
pub proof fn law_retry_identifier(bytes: Seq<u8>, nanos: u32, i: int)
    ensures
        retry_scid(Some(bytes), nanos) == bytes,
        retry_scid(None, nanos).len() == 8,
        retry_scid(None, nanos)[0] == nanos % 256,
        0 <= i < 7 ==> retry_scid(None, nanos)[i + 1] == (retry_scid(None, nanos)[i] + 185) % 256,
{
    if 0 <= i < 7 {
        lemma_clock_step(nanos + i * 0x9e37_79b9);
    }
}

/// The step between the bytes is the low byte of the one between the numbers.
proof fn lemma_clock_step(a: int)
    requires
        a >= 0,
    ensures
        (a + 0x9e37_79b9) % 256 == (a % 256 + 185) % 256,
{
    let q = a / 256;
    assert(a == 256 * q + a % 256);
    assert(a + 0x9e37_79b9 == 256 * (q + 0x9e_3779) + (a % 256 + 185));
}

} // verus!
