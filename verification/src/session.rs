//! The TLS session and the keys it hands out.
//!
//! Cryptography is the business of rustls: this module declares the rustls types
//! that the protocol core carries, and wraps the calls it makes. What keys do is
//! determined by the keys and by what they are applied to, and what a TLS session has
//! to say is determined by the session: those results have names here. What a session
//! makes of the bytes it reads also depends on the time and on chance, and so do random
//! bytes: those calls are put on record, for contracts to speak of. [`RecordedTls::reads`]
//! shows what TLS was handed and what it answered, the view of a [`RandomSource`] how
//! many bytes were drawn and which came.
use crate::types::Role;
use std::sync::Arc;
use vstd::prelude::*;
use vstd::utf8::{decode_utf8, valid_utf8};

verus! {

/// Keys of one encryption level, both directions.
#[verifier::external_type_specification]
#[verifier::external_body]
pub struct ExKeys(rustls::quic::Keys);

/// Keys of one direction.
#[verifier::external_type_specification]
#[verifier::external_body]
pub struct ExDirectionalKeys(rustls::quic::DirectionalKeys);

/// Packet keys of one key phase, both directions.
#[verifier::external_type_specification]
#[verifier::external_body]
pub struct ExPacketKeySet(rustls::quic::PacketKeySet);

/// The secrets that the keys of later key phases are derived from.
#[verifier::external_type_specification]
#[verifier::external_body]
pub struct ExSecrets(rustls::quic::Secrets);

/// The client side of a TLS session for QUIC.
#[verifier::external_type_specification]
#[verifier::external_body]
pub struct ExTlsClient(rustls::quic::ClientConnection);

/// The server side of a TLS session for QUIC.
#[verifier::external_type_specification]
#[verifier::external_body]
pub struct ExTlsServer(rustls::quic::ServerConnection);

/// The cipher suite of Initial packets.
#[verifier::external_type_specification]
#[verifier::external_body]
pub struct ExSuite(rustls::quic::Suite);

/// A TLS error.
#[verifier::external_type_specification]
#[verifier::external_body]
pub struct ExTlsError(rustls::Error);

/// A cryptography provider.
#[verifier::external_type_specification]
#[verifier::external_body]
pub struct ExCryptoProvider(rustls::crypto::CryptoProvider);

/// A TLS session for QUIC.
pub enum Tls {
    /// The client side.
    Client(rustls::quic::ClientConnection),
    /// The server side.
    Server(rustls::quic::ServerConnection),
}

/// A call that handed handshake bytes to TLS.
pub struct HsRead {
    /// The bytes.
    pub bytes: Seq<u8>,
    /// The error, if TLS refused them.
    pub error: Option<rustls::Error>,
}

/// A TLS session, with a record of the handshake bytes that it was handed.
pub struct RecordedTls {
    tls: Tls,
    reads: Ghost<Seq<HsRead>>,
}

impl RecordedTls {
    /// The session.
    pub closed spec fn tls(&self) -> Tls {
        self.tls
    }

    /// The calls that handed it handshake bytes, in order.
    pub closed spec fn reads(&self) -> Seq<HsRead> {
        self.reads@
    }
}

/// The error of a result, if it is one.
pub open spec fn error_of(r: Result<(), rustls::Error>) -> Option<rustls::Error> {
    match r {
        Ok(()) => None,
        Err(e) => Some(e),
    }
}

/// `rustls::quic::ConnectionCommon::read_hs` takes in these handshake bytes: the record
/// has one more call, with these bytes and this answer. What the answer is, and what
/// becomes of the session, also depends on the time and on chance: nothing is claimed
/// of it.
#[verifier::external_body]
fn tls_read_hs(session: &mut RecordedTls, bytes: &[u8]) -> (r: Result<(), rustls::Error>)
    ensures
        final(session).reads() == old(session).reads().push(
            HsRead { bytes: bytes@, error: error_of(r) },
        ),
{
    match &mut session.tls {
        Tls::Client(conn) => conn.read_hs(bytes),
        Tls::Server(conn) => conn.read_hs(bytes),
    }
}

/// The keys of 0-RTT packets that a session has.
pub uninterp spec fn early_keys(tls: Tls) -> Option<rustls::quic::DirectionalKeys>;

/// `rustls::quic::ConnectionCommon::zero_rtt_keys` derives the keys of 0-RTT packets
/// if the session has the secret for them. They depend on the session alone.
#[verifier::external_body]
fn tls_zero_rtt_keys(tls: &Tls) -> (keys: Option<rustls::quic::DirectionalKeys>)
    ensures
        keys == early_keys(*tls),
{
    match tls {
        Tls::Client(conn) => conn.zero_rtt_keys(),
        Tls::Server(conn) => conn.zero_rtt_keys(),
    }
}

/// The packet keys that these secrets give, and the secrets of the key phase after.
pub uninterp spec fn ratcheted(secrets: rustls::quic::Secrets) -> (
    rustls::quic::PacketKeySet,
    rustls::quic::Secrets,
);

/// `rustls::quic::Secrets::next_packet_keys` derives the keys of the next key phase
/// and moves the secrets on. Both depend on the secrets alone.
pub assume_specification[ rustls::quic::Secrets::next_packet_keys ](
    secrets: &mut rustls::quic::Secrets,
) -> (keys: rustls::quic::PacketKeySet)
    ensures
        (keys, *final(secrets)) == ratcheted(*old(secrets)),
;

/// The text of [`String::from_utf8_lossy`] for these bytes.
pub uninterp spec fn utf8_lossy(bytes: Seq<u8>) -> Seq<char>;

/// [`String::from_utf8_lossy`] gives the text of valid UTF-8, and otherwise puts a
/// replacement character in place of each invalid part; the text depends on the
/// bytes alone.
#[verifier::external_body]
pub(crate) fn text_lossy(bytes: &[u8]) -> (text: String)
    ensures
        text@ == utf8_lossy(bytes@),
        valid_utf8(bytes@) ==> text@ == decode_utf8(bytes@),
{
    String::from_utf8_lossy(bytes).into_owned()
}

/// The text of a TLS error.
pub uninterp spec fn error_display(e: rustls::Error) -> Seq<char>;

/// The `Display` text of a [`rustls::Error`], which depends on the error alone.
#[verifier::external_body]
pub(crate) fn error_text(e: &rustls::Error) -> (text: String)
    ensures
        text@ == error_display(*e),
{
    e.to_string()
}

/// What a TLS session hands out when it moves on to other keys.
pub enum KeyStep {
    /// Nothing: the keys stay.
    Same,
    /// The keys of the Handshake level.
    Handshake(rustls::quic::Keys),
    /// The keys of the 1-RTT level, and the secrets of later key phases.
    OneRtt(rustls::quic::Keys, rustls::quic::Secrets),
}

/// The handshake bytes that a session wants sent, the keys to use from then on, and the
/// session after it was asked.
pub uninterp spec fn hs_written(tls: Tls) -> (Seq<u8>, KeyStep, Tls);

/// `rustls::quic::ConnectionCommon::write_hs` gives the handshake bytes to send, and
/// the keys to use from then on where they change. Both were settled when the session
/// read what it answers: they depend on the session alone.
#[verifier::external_body]
fn tls_write_hs(tls: &mut Tls) -> (r: (Vec<u8>, KeyStep))
    ensures
        (r.0@, r.1, *final(tls)) == hs_written(*old(tls)),
{
    let mut bytes = Vec::new();
    let change = match tls {
        Tls::Client(conn) => conn.write_hs(&mut bytes),
        Tls::Server(conn) => conn.write_hs(&mut bytes),
    };
    let step = match change {
        None => KeyStep::Same,
        Some(rustls::quic::KeyChange::Handshake { keys }) => KeyStep::Handshake(keys),
        Some(rustls::quic::KeyChange::OneRtt { keys, next }) => KeyStep::OneRtt(keys, next),
    };
    (bytes, step)
}

/// Whether the handshake of a session is still under way.
pub uninterp spec fn shaking_hands(tls: Tls) -> bool;

/// `rustls::CommonState::is_handshaking`, which both sides of a session deref to: the
/// handshake is under way until data may go both ways, as the session alone says.
#[verifier::external_body]
fn tls_is_handshaking(tls: &Tls) -> (r: bool)
    ensures
        r == shaking_hands(*tls),
{
    match tls {
        Tls::Client(conn) => conn.is_handshaking(),
        Tls::Server(conn) => conn.is_handshaking(),
    }
}

/// The keys of Initial packets for the client's destination connection identifier.
pub uninterp spec fn initial_keys_of(suite: rustls::quic::Suite, dcid: Seq<u8>, role: Role) ->
    rustls::quic::Keys;

/// `rustls::quic::Suite::keys` derives the keys of Initial packets of QUIC version 1
/// from the client's destination connection identifier. They depend on the suite,
/// the identifier and the side alone.
#[verifier::external_body]
fn suite_keys(suite: &rustls::quic::Suite, dcid: &[u8], role: Role) -> (keys: rustls::quic::Keys)
    ensures
        keys == initial_keys_of(*suite, dcid@, role),
{
    let side = match role {
        Role::Client => rustls::Side::Client,
        Role::Server => rustls::Side::Server,
    };
    suite.keys(dcid, side, rustls::quic::Version::V1)
}

/// A draw of random bytes.
pub struct Draw {
    /// How many were asked for.
    pub len: nat,
    /// The bytes, unless the generator failed.
    pub bytes: Option<Seq<u8>>,
}

/// Where random bytes come from, with a record of the draws.
pub struct RandomSource {
    provider: Arc<rustls::crypto::CryptoProvider>,
    draws: Ghost<Seq<Draw>>,
}

impl View for RandomSource {
    type V = Seq<Draw>;

    /// The draws, in order.
    closed spec fn view(&self) -> Seq<Draw> {
        self.draws@
    }
}

/// `SecureRandom::fill` of the provider: as many random bytes as asked for, or none if
/// it fails. The record has one more draw, of this length and with these bytes. Which
/// bytes they are is a matter of chance: nothing is claimed of them.
#[verifier::external_body]
fn provider_random(source: &mut RandomSource, len: usize) -> (r: Option<Vec<u8>>)
    ensures
        final(source)@ == old(source)@.push(Draw { len: len as nat, bytes: opt_bytes(r) }),
        r matches Some(bytes) ==> bytes@.len() == len,
{
    let mut bytes = vec![0u8; len];
    match source.provider.secure_random.fill(&mut bytes) {
        Ok(()) => Some(bytes),
        Err(_) => None,
    }
}

impl RandomSource {
    /// Random bytes of this provider; none are drawn yet.
    pub fn new(provider: Arc<rustls::crypto::CryptoProvider>) -> (source: RandomSource)
        ensures
            source@ == Seq::<Draw>::empty(),
    {
        RandomSource { provider, draws: Ghost(Seq::empty()) }
    }

    /// `len` random bytes, unless the generator fails.
    pub fn draw(&mut self, len: usize) -> (bytes: Option<Vec<u8>>)
        ensures
            final(self)@ == old(self)@.push(Draw { len: len as nat, bytes: opt_bytes(bytes) }),
            bytes matches Some(b) ==> b@.len() == len,
    {
        provider_random(self, len)
    }
}

/// The keys that a packet is read with.
pub enum ReadKeys {
    /// The remote half of keys of one encryption level.
    Level(rustls::quic::Keys),
    /// Keys of one direction.
    Directional(rustls::quic::DirectionalKeys),
    /// The remote packet key of one key phase.
    Phase(rustls::quic::PacketKeySet),
}

/// The first byte and packet number field without header protection, if the keys take
/// the sample.
pub uninterp spec fn unmasked(keys: ReadKeys, sample: Seq<u8>, first: u8, pn: Seq<u8>) -> Option<
    (u8, Seq<u8>),
>;

/// The payload in the clear, if it is authentic.
pub uninterp spec fn opened(keys: ReadKeys, pn: u64, header: Seq<u8>, payload: Seq<u8>) -> Option<
    Seq<u8>,
>;

/// `HeaderProtectionKey::decrypt_in_place` of the remote half of `keys`: the first
/// byte and packet number field without header protection, or an error if the key
/// does not take the sample. That depends on the key and the bytes alone.
#[verifier::external_body]
pub(crate) fn unmask(keys: &rustls::quic::Keys, sample: &[u8], first: u8, pn: [u8; 4]) -> (r: Option<
    (u8, [u8; 4]),
>)
    ensures
        clear_view(r) == unmasked(ReadKeys::Level(*keys), sample@, first, pn@),
{
    let (mut first, mut pn) = (first, pn);
    match keys.remote.header.decrypt_in_place(sample, &mut first, &mut pn) {
        Ok(()) => Some((first, pn)),
        Err(_) => None,
    }
}

/// `HeaderProtectionKey::decrypt_in_place` of keys of one direction; see [`unmask`].
#[verifier::external_body]
pub(crate) fn unmask_directional(
    keys: &rustls::quic::DirectionalKeys,
    sample: &[u8],
    first: u8,
    pn: [u8; 4],
) -> (r: Option<(u8, [u8; 4])>)
    ensures
        clear_view(r) == unmasked(ReadKeys::Directional(*keys), sample@, first, pn@),
{
    let (mut first, mut pn) = (first, pn);
    match keys.header.decrypt_in_place(sample, &mut first, &mut pn) {
        Ok(()) => Some((first, pn)),
        Err(_) => None,
    }
}

/// `PacketKey::decrypt_in_place` of the remote half of `keys`: the payload in the
/// clear, or an error if it is not authentic. That depends on the key and the bytes
/// alone.
#[verifier::external_body]
pub(crate) fn open(keys: &rustls::quic::Keys, pn: u64, header: &[u8], payload: &[u8]) -> (r: Option<
    Vec<u8>,
>)
    ensures
        opt_bytes(r) == opened(ReadKeys::Level(*keys), pn, header@, payload@),
{
    let mut buf = payload.to_vec();
    match keys.remote.packet.decrypt_in_place(pn, header, &mut buf) {
        Ok(plain) => Some(plain.to_vec()),
        Err(_) => None,
    }
}

/// `PacketKey::decrypt_in_place` of keys of one direction; see [`open`].
#[verifier::external_body]
pub(crate) fn open_directional(
    keys: &rustls::quic::DirectionalKeys,
    pn: u64,
    header: &[u8],
    payload: &[u8],
) -> (r: Option<Vec<u8>>)
    ensures
        opt_bytes(r) == opened(ReadKeys::Directional(*keys), pn, header@, payload@),
{
    let mut buf = payload.to_vec();
    match keys.packet.decrypt_in_place(pn, header, &mut buf) {
        Ok(plain) => Some(plain.to_vec()),
        Err(_) => None,
    }
}

/// `PacketKey::decrypt_in_place` of the remote key of one key phase; see [`open`].
#[verifier::external_body]
pub(crate) fn open_phase(
    keys: &rustls::quic::PacketKeySet,
    pn: u64,
    header: &[u8],
    payload: &[u8],
) -> (r: Option<Vec<u8>>)
    ensures
        opt_bytes(r) == opened(ReadKeys::Phase(*keys), pn, header@, payload@),
{
    let mut buf = payload.to_vec();
    match keys.remote.decrypt_in_place(pn, header, &mut buf) {
        Ok(plain) => Some(plain.to_vec()),
        Err(_) => None,
    }
}

/// The bytes of an optional vector.
pub open spec fn opt_bytes(v: Option<Vec<u8>>) -> Option<Seq<u8>> {
    match v {
        Some(b) => Some(b@),
        None => None,
    }
}

/// The TLS session of a connection, the cipher suite of Initial packets, and the source
/// of random bytes.
pub struct Session {
    tls: RecordedTls,
    suite: rustls::quic::Suite,
    random: RandomSource,
}

impl Session {
    /// The cipher suite of Initial packets.
    pub closed spec fn suite(&self) -> rustls::quic::Suite {
        self.suite
    }

    /// The TLS session.
    pub closed spec fn tls(&self) -> Tls {
        self.tls.tls()
    }

    /// The calls that handed handshake bytes to TLS.
    pub closed spec fn reads(&self) -> Seq<HsRead> {
        self.tls.reads()
    }

    /// The draws of random bytes.
    pub closed spec fn draws(&self) -> Seq<Draw> {
        self.random@
    }

    /// A session of which no call has been made.
    pub fn new(
        tls: Tls,
        suite: rustls::quic::Suite,
        provider: Arc<rustls::crypto::CryptoProvider>,
    ) -> (s: Session)
        ensures
            s.suite() == suite,
            s.tls() == tls,
            s.reads() == Seq::<HsRead>::empty(),
            s.draws() == Seq::<Draw>::empty(),
    {
        Session {
            tls: RecordedTls { tls, reads: Ghost(Seq::empty()) },
            suite,
            random: RandomSource::new(provider),
        }
    }

    /// Hands handshake bytes to TLS; gives the error if it refuses them.
    pub fn read_hs(&mut self, bytes: &[u8]) -> (error: Option<rustls::Error>)
        ensures
            final(self).suite() == old(self).suite(),
            final(self).reads() == old(self).reads().push(HsRead { bytes: bytes@, error }),
            final(self).draws() == old(self).draws(),
    {
        match tls_read_hs(&mut self.tls, bytes) {
            Ok(()) => None,
            Err(e) => Some(e),
        }
    }

    /// The handshake bytes that TLS wants sent, and the keys to use from then on.
    pub fn write_hs(&mut self) -> (r: (Vec<u8>, KeyStep))
        ensures
            final(self).suite() == old(self).suite(),
            final(self).reads() == old(self).reads(),
            final(self).draws() == old(self).draws(),
            (r.0@, r.1, final(self).tls()) == hs_written(old(self).tls()),
    {
        tls_write_hs(&mut self.tls.tls)
    }

    /// Whether TLS is still shaking hands.
    pub fn is_handshaking(&self) -> (r: bool)
        ensures
            r == shaking_hands(self.tls()),
    {
        tls_is_handshaking(&self.tls.tls)
    }

    /// The keys of 0-RTT packets, if TLS has them.
    pub fn zero_rtt_keys(&self) -> (keys: Option<rustls::quic::DirectionalKeys>)
        ensures
            keys == early_keys(self.tls()),
    {
        tls_zero_rtt_keys(&self.tls.tls)
    }

    /// The keys of Initial packets for the client's destination identifier `dcid`.
    pub fn initial_keys(&self, dcid: &[u8], role: Role) -> (keys: rustls::quic::Keys)
        ensures
            keys == initial_keys_of(self.suite(), dcid@, role),
    {
        suite_keys(&self.suite, dcid, role)
    }

    /// `len` random bytes, unless the generator fails.
    pub fn random(&mut self, len: usize) -> (bytes: Option<Vec<u8>>)
        ensures
            final(self).suite() == old(self).suite(),
            final(self).tls() == old(self).tls(),
            final(self).reads() == old(self).reads(),
            final(self).draws() == old(self).draws().push(
                Draw { len: len as nat, bytes: opt_bytes(bytes) },
            ),
            bytes matches Some(b) ==> b@.len() == len,
    {
        self.random.draw(len)
    }
}

/// A first byte and packet number field, as values.
pub open spec fn clear_view(r: Option<(u8, [u8; 4])>) -> Option<(u8, Seq<u8>)> {
    match r {
        Some((first, pn)) => Some((first, pn@)),
        None => None,
    }
}

} // verus!
