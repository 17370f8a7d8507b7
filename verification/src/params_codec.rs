//! TLS wire encoding of QUIC transport parameters (RFC 9000 Section 18).
//!
//! Transport parameters are carried inside the TLS `quic_transport_parameters`
//! extension as a sequence of `(varint id, varint length, value)` triples. A
//! malformed encoding fails the handshake with `TRANSPORT_PARAMETER_ERROR`, so
//! decoding is strict.
use crate::coding::{
    lemma_varint_at_bounds, lemma_varint_at_concat, lemma_varint_round_trip, put_varint, varint_at, varint_bytes,
    varint_len, varint_size, Buf, VARINT_LIMIT,
};
use crate::error::{transport_error, ErrorView, OxiQuicError, TransportErrorCode};
use vstd::prelude::*;

verus! {

/// RFC 9000 Section 18.2: `max_idle_timeout`.
pub const ID_MAX_IDLE_TIMEOUT: u64 = 0x01;

/// RFC 9000 Section 18.2: `max_udp_payload_size`.
pub const ID_MAX_UDP_PAYLOAD_SIZE: u64 = 0x03;

/// RFC 9000 Section 18.2: `initial_max_data`.
pub const ID_INITIAL_MAX_DATA: u64 = 0x04;

/// RFC 9000 Section 18.2: `initial_max_stream_data_bidi_local`.
pub const ID_INITIAL_MAX_STREAM_DATA_BIDI_LOCAL: u64 = 0x05;

/// RFC 9000 Section 18.2: `initial_max_stream_data_bidi_remote`.
pub const ID_INITIAL_MAX_STREAM_DATA_BIDI_REMOTE: u64 = 0x06;

/// RFC 9000 Section 18.2: `initial_max_stream_data_uni`.
pub const ID_INITIAL_MAX_STREAM_DATA_UNI: u64 = 0x07;

/// RFC 9000 Section 18.2: `initial_max_streams_bidi`.
pub const ID_INITIAL_MAX_STREAMS_BIDI: u64 = 0x08;

/// RFC 9000 Section 18.2: `initial_max_streams_uni`.
pub const ID_INITIAL_MAX_STREAMS_UNI: u64 = 0x09;

/// RFC 9000 Section 18.2: `ack_delay_exponent`.
pub const ID_ACK_DELAY_EXPONENT: u64 = 0x0a;

/// RFC 9000 Section 18.2: `max_ack_delay`.
pub const ID_MAX_ACK_DELAY: u64 = 0x0b;

/// RFC 9000 Section 18.2: `disable_active_migration`.
pub const ID_DISABLE_ACTIVE_MIGRATION: u64 = 0x0c;

/// RFC 9000 Section 18.2: `active_connection_id_limit`.
pub const ID_ACTIVE_CONNECTION_ID_LIMIT: u64 = 0x0e;

/// RFC 9221 Section 3: `max_datagram_frame_size`.
pub const ID_MAX_DATAGRAM_FRAME_SIZE: u64 = 0x20;

/// The default `ack_delay_exponent` (RFC 9000 Section 18.2).
pub const DEFAULT_ACK_DELAY_EXPONENT: u8 = 3;

/// QUIC transport parameters.
#[derive(Clone, Copy, Debug, PartialEq, Eq, Structural)]
pub struct TransportParams {
    /// Idle timeout in milliseconds; zero for none.
    pub max_idle_timeout_ms: u64,
    /// Largest UDP payload the endpoint takes.
    pub max_udp_payload_size: u64,
    /// Initial connection-level flow control limit.
    pub initial_max_data: u64,
    /// Initial flow control limit of locally opened bidirectional streams.
    pub initial_max_stream_data_bidi_local: u64,
    /// Initial flow control limit of bidirectional streams the peer opens.
    pub initial_max_stream_data_bidi_remote: u64,
    /// Initial flow control limit of unidirectional streams.
    pub initial_max_stream_data_uni: u64,
    /// How many bidirectional streams the peer may open at first.
    pub initial_max_streams_bidi: u64,
    /// How many unidirectional streams the peer may open at first.
    pub initial_max_streams_uni: u64,
    /// Scale of the ACK delay field.
    pub ack_delay_exponent: u8,
    /// Longest delay of an acknowledgement in milliseconds.
    pub max_ack_delay_ms: u64,
    /// How many connection identifiers of the peer the endpoint keeps.
    pub active_connection_id_limit: u64,
    /// Whether the peer is asked not to migrate.
    pub disable_active_migration: bool,
    /// Largest DATAGRAM frame taken; zero for none.
    pub max_datagram_frame_size: u64,
}

/// The values that hold for parameters a peer does not send.
pub open spec fn default_params() -> TransportParams {
    TransportParams {
        max_idle_timeout_ms: 0,
        max_udp_payload_size: 65527,
        initial_max_data: 0,
        initial_max_stream_data_bidi_local: 0,
        initial_max_stream_data_bidi_remote: 0,
        initial_max_stream_data_uni: 0,
        initial_max_streams_bidi: 0,
        initial_max_streams_uni: 0,
        ack_delay_exponent: 3,
        max_ack_delay_ms: 25,
        active_connection_id_limit: 2,
        disable_active_migration: false,
        max_datagram_frame_size: 0,
    }
}

impl Default for TransportParams {
    fn default() -> (p: TransportParams)
        ensures
            p == default_params(),
    {
        TransportParams {
            max_idle_timeout_ms: 0,
            max_udp_payload_size: 65527,
            initial_max_data: 0,
            initial_max_stream_data_bidi_local: 0,
            initial_max_stream_data_bidi_remote: 0,
            initial_max_stream_data_uni: 0,
            initial_max_streams_bidi: 0,
            initial_max_streams_uni: 0,
            ack_delay_exponent: DEFAULT_ACK_DELAY_EXPONENT,
            max_ack_delay_ms: 25,
            active_connection_id_limit: 2,
            disable_active_migration: false,
            max_datagram_frame_size: 0,
        }
    }
}

impl TransportParams {
    /// Whether every value fits a variable-length integer.
    pub open spec fn encodable(self) -> bool {
        &&& self.max_idle_timeout_ms < VARINT_LIMIT
        &&& self.max_udp_payload_size < VARINT_LIMIT
        &&& self.initial_max_data < VARINT_LIMIT
        &&& self.initial_max_stream_data_bidi_local < VARINT_LIMIT
        &&& self.initial_max_stream_data_bidi_remote < VARINT_LIMIT
        &&& self.initial_max_stream_data_uni < VARINT_LIMIT
        &&& self.initial_max_streams_bidi < VARINT_LIMIT
        &&& self.initial_max_streams_uni < VARINT_LIMIT
        &&& self.max_ack_delay_ms < VARINT_LIMIT
        &&& self.active_connection_id_limit < VARINT_LIMIT
        &&& self.max_datagram_frame_size < VARINT_LIMIT
    }
}

/// The triple of a parameter whose value is an integer.
pub open spec fn scalar_bytes(id: u64, value: u64) -> Seq<u8> {
    varint_bytes(id) + varint_bytes(varint_len(value) as u64) + varint_bytes(value)
}

/// The triple of a parameter that is left out where its value is zero.
pub open spec fn nonzero_bytes(id: u64, value: u64) -> Seq<u8> {
    if value != 0 {
        scalar_bytes(id, value)
    } else {
        Seq::empty()
    }
}

/// The triple of a parameter that has no value and is sent where `set` holds.
pub open spec fn flag_bytes(id: u64, set: bool) -> Seq<u8> {
    if set {
        varint_bytes(id) + varint_bytes(0)
    } else {
        Seq::empty()
    }
}

/// The extension's bytes: one triple per parameter, in this order.
pub open spec fn encoded_params(p: TransportParams) -> Seq<u8> {
    nonzero_bytes(ID_MAX_IDLE_TIMEOUT, p.max_idle_timeout_ms) + scalar_bytes(
        ID_MAX_UDP_PAYLOAD_SIZE,
        p.max_udp_payload_size,
    ) + nonzero_bytes(ID_INITIAL_MAX_DATA, p.initial_max_data) + nonzero_bytes(
        ID_INITIAL_MAX_STREAM_DATA_BIDI_LOCAL,
        p.initial_max_stream_data_bidi_local,
    ) + nonzero_bytes(
        ID_INITIAL_MAX_STREAM_DATA_BIDI_REMOTE,
        p.initial_max_stream_data_bidi_remote,
    ) + nonzero_bytes(ID_INITIAL_MAX_STREAM_DATA_UNI, p.initial_max_stream_data_uni)
        + nonzero_bytes(ID_INITIAL_MAX_STREAMS_BIDI, p.initial_max_streams_bidi) + nonzero_bytes(
        ID_INITIAL_MAX_STREAMS_UNI,
        p.initial_max_streams_uni,
    ) + scalar_bytes(ID_ACK_DELAY_EXPONENT, p.ack_delay_exponent as u64) + scalar_bytes(
        ID_MAX_ACK_DELAY,
        p.max_ack_delay_ms,
    ) + scalar_bytes(ID_ACTIVE_CONNECTION_ID_LIMIT, p.active_connection_id_limit) + flag_bytes(
        ID_DISABLE_ACTIVE_MIGRATION,
        p.disable_active_migration,
    ) + nonzero_bytes(ID_MAX_DATAGRAM_FRAME_SIZE, p.max_datagram_frame_size)
}

/// Writes the triple of an integer parameter at the end of `out`.
pub fn put_varint_param(out: &mut Vec<u8>, id: u64, value: u64)
    requires
        id < VARINT_LIMIT,
        value < VARINT_LIMIT,
    ensures
        final(out)@ == old(out)@ + scalar_bytes(id, value),
{
    put_varint(out, id);
    put_varint(out, varint_size(value) as u64);
    put_varint(out, value);
    assert(out@ =~= old(out)@ + scalar_bytes(id, value));
}

/// Writes the triple of an integer parameter unless the value is zero.
fn put_nonzero_param(out: &mut Vec<u8>, id: u64, value: u64)
    requires
        id < VARINT_LIMIT,
        value < VARINT_LIMIT,
    ensures
        final(out)@ == old(out)@ + nonzero_bytes(id, value),
{
    if value != 0 {
        put_varint_param(out, id, value);
    } else {
        assert(out@ =~= old(out)@ + nonzero_bytes(id, value));
    }
}

/// Encode transport parameters into the TLS extension byte string
/// (RFC 9000 Section 18).
#[must_use]
pub fn encode_transport_params(params: &TransportParams) -> (out: Vec<u8>)
    requires
        params.encodable(),
    ensures
        out@ == encoded_params(*params),
{
    let mut out: Vec<u8> = Vec::new();
    put_nonzero_param(&mut out, ID_MAX_IDLE_TIMEOUT, params.max_idle_timeout_ms);
    assert(out@ =~= nonzero_bytes(ID_MAX_IDLE_TIMEOUT, params.max_idle_timeout_ms));
    put_varint_param(&mut out, ID_MAX_UDP_PAYLOAD_SIZE, params.max_udp_payload_size);
    put_nonzero_param(&mut out, ID_INITIAL_MAX_DATA, params.initial_max_data);
    put_nonzero_param(
        &mut out,
        ID_INITIAL_MAX_STREAM_DATA_BIDI_LOCAL,
        params.initial_max_stream_data_bidi_local,
    );
    put_nonzero_param(
        &mut out,
        ID_INITIAL_MAX_STREAM_DATA_BIDI_REMOTE,
        params.initial_max_stream_data_bidi_remote,
    );
    put_nonzero_param(
        &mut out,
        ID_INITIAL_MAX_STREAM_DATA_UNI,
        params.initial_max_stream_data_uni,
    );
    put_nonzero_param(&mut out, ID_INITIAL_MAX_STREAMS_BIDI, params.initial_max_streams_bidi);
    put_nonzero_param(&mut out, ID_INITIAL_MAX_STREAMS_UNI, params.initial_max_streams_uni);
    put_varint_param(&mut out, ID_ACK_DELAY_EXPONENT, params.ack_delay_exponent as u64);
    put_varint_param(&mut out, ID_MAX_ACK_DELAY, params.max_ack_delay_ms);
    put_varint_param(&mut out, ID_ACTIVE_CONNECTION_ID_LIMIT, params.active_connection_id_limit);
    let ghost before_flag = out@;
    if params.disable_active_migration {
        // Zero-length value parameter (a flag).
        put_varint(&mut out, ID_DISABLE_ACTIVE_MIGRATION);
        put_varint(&mut out, 0);
    }
    assert(out@ =~= before_flag + flag_bytes(
        ID_DISABLE_ACTIVE_MIGRATION,
        params.disable_active_migration,
    ));
    put_nonzero_param(&mut out, ID_MAX_DATAGRAM_FRAME_SIZE, params.max_datagram_frame_size);
    out
}

/// The integer that fills a parameter's value, or what is wrong with the value.
pub open spec fn scalar_value(value: Seq<u8>) -> Result<u64, Seq<char>> {
    match varint_at(value) {
        None => Err("transport parameter value is not a varint"@),
        Some((v, n)) => if n < value.len() {
            Err("trailing bytes in transport parameter value"@)
        } else {
            Ok(v)
        },
    }
}

/// `p` with the parameter `id` set to the scalar `v`; unknown identifiers change
/// nothing.
pub open spec fn with_scalar(p: TransportParams, id: u64, v: u64) -> TransportParams {
    if id == ID_MAX_IDLE_TIMEOUT {
        TransportParams { max_idle_timeout_ms: v, ..p }
    } else if id == ID_MAX_UDP_PAYLOAD_SIZE {
        TransportParams { max_udp_payload_size: v, ..p }
    } else if id == ID_INITIAL_MAX_DATA {
        TransportParams { initial_max_data: v, ..p }
    } else if id == ID_INITIAL_MAX_STREAM_DATA_BIDI_LOCAL {
        TransportParams { initial_max_stream_data_bidi_local: v, ..p }
    } else if id == ID_INITIAL_MAX_STREAM_DATA_BIDI_REMOTE {
        TransportParams { initial_max_stream_data_bidi_remote: v, ..p }
    } else if id == ID_INITIAL_MAX_STREAM_DATA_UNI {
        TransportParams { initial_max_stream_data_uni: v, ..p }
    } else if id == ID_INITIAL_MAX_STREAMS_BIDI {
        TransportParams { initial_max_streams_bidi: v, ..p }
    } else if id == ID_INITIAL_MAX_STREAMS_UNI {
        TransportParams { initial_max_streams_uni: v, ..p }
    } else if id == ID_ACK_DELAY_EXPONENT {
        TransportParams {
            ack_delay_exponent: if v <= 255 {
                v as u8
            } else {
                255
            },
            ..p
        }
    } else if id == ID_MAX_ACK_DELAY {
        TransportParams { max_ack_delay_ms: v, ..p }
    } else if id == ID_ACTIVE_CONNECTION_ID_LIMIT {
        TransportParams { active_connection_id_limit: v, ..p }
    } else if id == ID_MAX_DATAGRAM_FRAME_SIZE {
        TransportParams { max_datagram_frame_size: v, ..p }
    } else {
        p
    }
}

/// Whether `id` names a parameter whose value is an integer.
pub open spec fn is_scalar_id(id: u64) -> bool {
    ||| id == ID_MAX_IDLE_TIMEOUT
    ||| 0x03 <= id <= 0x0b
    ||| id == ID_ACTIVE_CONNECTION_ID_LIMIT
    ||| id == ID_MAX_DATAGRAM_FRAME_SIZE
}

/// `p` after the parameter `id` with this value, or what is wrong with the value.
pub open spec fn with_param(p: TransportParams, id: u64, value: Seq<u8>) -> Result<
    TransportParams,
    Seq<char>,
> {
    if is_scalar_id(id) {
        match scalar_value(value) {
            Ok(v) => Ok(with_scalar(p, id, v)),
            Err(reason) => Err(reason),
        }
    } else if id == ID_DISABLE_ACTIVE_MIGRATION {
        if value.len() != 0 {
            Err("disable_active_migration must be zero-length"@)
        } else {
            Ok(TransportParams { disable_active_migration: true, ..p })
        }
    } else {
        Ok(p)
    }
}

/// The triple at the front of `s` as its identifier, its value and its length in
/// bytes, or what is wrong with it.
pub open spec fn triple_at(s: Seq<u8>) -> Result<(u64, Seq<u8>, int), Seq<char>> {
    match varint_at(s) {
        None => Err("truncated transport parameter id"@),
        Some((id, n)) => {
            let after_id = s.skip(n as int);
            match varint_at(after_id) {
                None => Err("truncated transport parameter length"@),
                Some((len, m)) => {
                    let after_len = after_id.skip(m as int);
                    if len > after_len.len() {
                        Err("transport parameter length overruns buffer"@)
                    } else {
                        Ok((id, after_len.take(len as int), n + m + len))
                    }
                },
            }
        },
    }
}

/// `p` after all the triples of `s` in turn, or the first thing wrong with them.
pub open spec fn decoded_params(p: TransportParams, s: Seq<u8>) -> Result<
    TransportParams,
    Seq<char>,
>
    decreases s.len(),
    via decoded_params_decreases
{
    if s.len() == 0 {
        Ok(p)
    } else {
        match triple_at(s) {
            Err(reason) => Err(reason),
            Ok((id, value, n)) => match with_param(p, id, value) {
                Err(reason) => Err(reason),
                Ok(q) => decoded_params(q, s.skip(n)),
            },
        }
    }
}

#[via_fn]
proof fn decoded_params_decreases(p: TransportParams, s: Seq<u8>) {
    lemma_triple_bounds(s);
}

proof fn lemma_triple_bounds(s: Seq<u8>)
    ensures
        triple_at(s) matches Ok((id, value, n)) ==> 2 <= n <= s.len() && id < VARINT_LIMIT,
{
    lemma_varint_at_bounds(s);
    if let Some((id, n)) = varint_at(s) {
        lemma_varint_at_bounds(s.skip(n as int));
    }
}

/// The error for a malformed encoding.
fn param_error(reason: &str) -> (e: OxiQuicError)
    ensures
        e@ == ErrorView::TransportError(
            TransportErrorCode::TransportParameterError,
            None,
            reason@,
        ),
{
    transport_error(TransportErrorCode::TransportParameterError, reason)
}

/// The integer that fills `value`.
fn scalar(value: &[u8]) -> (r: Result<u64, OxiQuicError>)
    ensures
        match scalar_value(value@) {
            Ok(v) => r == Ok::<u64, OxiQuicError>(v),
            Err(reason) => r matches Err(e) && e@ == ErrorView::TransportError(
                TransportErrorCode::TransportParameterError,
                None,
                reason,
            ),
        },
{
    let mut inner = Buf::new(value);
    match inner.get_varint() {
        Err(_) => Err(param_error("transport parameter value is not a varint")),
        Ok(v) => {
            if !inner.is_empty() {
                return Err(param_error("trailing bytes in transport parameter value"));
            }
            Ok(v)
        },
    }
}

/// Stores the scalar `v` under `id`.
fn set_scalar(params: &mut TransportParams, id: u64, v: u64)
    requires
        is_scalar_id(id),
    ensures
        *final(params) == with_scalar(*old(params), id, v),
{
    match id {
        ID_MAX_IDLE_TIMEOUT => params.max_idle_timeout_ms = v,
        ID_MAX_UDP_PAYLOAD_SIZE => params.max_udp_payload_size = v,
        ID_INITIAL_MAX_DATA => params.initial_max_data = v,
        ID_INITIAL_MAX_STREAM_DATA_BIDI_LOCAL => params.initial_max_stream_data_bidi_local = v,
        ID_INITIAL_MAX_STREAM_DATA_BIDI_REMOTE => params.initial_max_stream_data_bidi_remote = v,
        ID_INITIAL_MAX_STREAM_DATA_UNI => params.initial_max_stream_data_uni = v,
        ID_INITIAL_MAX_STREAMS_BIDI => params.initial_max_streams_bidi = v,
        ID_INITIAL_MAX_STREAMS_UNI => params.initial_max_streams_uni = v,
        ID_ACK_DELAY_EXPONENT => {
            params.ack_delay_exponent = if v <= 255 {
                v as u8
            } else {
                255
            };
        },
        ID_MAX_ACK_DELAY => params.max_ack_delay_ms = v,
        ID_ACTIVE_CONNECTION_ID_LIMIT => params.active_connection_id_limit = v,
        _ => params.max_datagram_frame_size = v,
    }
}

/// Decode the peer's transport parameters from the TLS extension byte string.
///
/// Unknown parameter IDs are ignored (RFC 9000 Section 18.1). Parameters absent
/// from the encoding retain their [`TransportParams::default`] values.
///
/// # Errors
/// Returns [`OxiQuicError::TransportError`] with `TRANSPORT_PARAMETER_ERROR`
/// for truncated input, a declared length that overruns the buffer, or a
/// scalar parameter whose value does not fill its declared length.
pub fn decode_transport_params(bytes: &[u8]) -> (r: Result<TransportParams, OxiQuicError>)
    ensures
        match decoded_params(default_params(), bytes@) {
            Ok(p) => r == Ok::<TransportParams, OxiQuicError>(p),
            Err(reason) => r matches Err(e) && e@ == ErrorView::TransportError(
                TransportErrorCode::TransportParameterError,
                None,
                reason,
            ),
        },
{
    let mut params: TransportParams = TransportParams::default();
    let mut buf = Buf::new(bytes);
    while !buf.is_empty()
        invariant
            decoded_params(params, buf@) == decoded_params(default_params(), bytes@),
        decreases buf@.len(),
    {
        let ghost s = buf@;
        proof {
            lemma_triple_bounds(s);
        }
        let id: u64 = match buf.get_varint() {
            Ok(id) => id,
            Err(_) => return Err(param_error("truncated transport parameter id")),
        };
        let len: u64 = match buf.get_varint() {
            Ok(len) => len,
            Err(_) => return Err(param_error("truncated transport parameter length")),
        };
        if len > buf.remaining() as u64 {
            return Err(param_error("transport parameter length overruns buffer"));
        }
        let value = match buf.get_bytes(len as usize) {
            Ok(value) => value,
            Err(_) => return Err(param_error("transport parameter length overruns buffer")),
        };
        assert(triple_at(s) matches Ok((i, v, n)) && i == id && v == value@ && buf@ =~= s.skip(n));
        match id {
            ID_MAX_IDLE_TIMEOUT
            | ID_MAX_UDP_PAYLOAD_SIZE
            | ID_INITIAL_MAX_DATA
            | ID_INITIAL_MAX_STREAM_DATA_BIDI_LOCAL
            | ID_INITIAL_MAX_STREAM_DATA_BIDI_REMOTE
            | ID_INITIAL_MAX_STREAM_DATA_UNI
            | ID_INITIAL_MAX_STREAMS_BIDI
            | ID_INITIAL_MAX_STREAMS_UNI
            | ID_ACK_DELAY_EXPONENT
            | ID_MAX_ACK_DELAY
            | ID_ACTIVE_CONNECTION_ID_LIMIT
            | ID_MAX_DATAGRAM_FRAME_SIZE => match scalar(value) {
                Ok(v) => set_scalar(&mut params, id, v),
                Err(e) => return Err(e),
            },
            ID_DISABLE_ACTIVE_MIGRATION => {
                if value.len() != 0 {
                    return Err(param_error("disable_active_migration must be zero-length"));
                }
                params.disable_active_migration = true;
            },
            // Unknown / reserved parameters (including GREASE) are ignored.
            _ => {},
        }
    }
    Ok(params)
}

proof fn lemma_triple_concat(a: Seq<u8>, b: Seq<u8>)
    requires
        triple_at(a) is Ok,
    ensures
        triple_at(a + b) == triple_at(a),
{
    lemma_varint_at_concat(a, b);
    let (id, n) = varint_at(a).unwrap();
    lemma_varint_at_bounds(a);
    let a1 = a.skip(n as int);
    assert((a + b).skip(n as int) =~= a1 + b);
    lemma_varint_at_concat(a1, b);
    lemma_varint_at_bounds(a1);
    let (len, m) = varint_at(a1).unwrap();
    assert((a1 + b).skip(m as int) =~= a1.skip(m as int) + b);
    assert((a1.skip(m as int) + b).take(len as int) =~= a1.skip(m as int).take(len as int));
}

/// Parameters can be sent in pieces: decoding one encoding after another is
/// decoding the two as one, wherever the first is well formed.
pub proof fn law_decode_concat(p: TransportParams, a: Seq<u8>, b: Seq<u8>)
    requires
        decoded_params(p, a) is Ok,
    ensures
        decoded_params(p, a + b) == decoded_params(decoded_params(p, a)->Ok_0, b),
    decreases a.len(),
{
    if a.len() == 0 {
        assert(a + b =~= b);
    } else {
        lemma_triple_bounds(a);
        lemma_triple_concat(a, b);
        let (id, value, n) = triple_at(a)->Ok_0;
        let q = with_param(p, id, value)->Ok_0;
        assert((a + b).skip(n) =~= a.skip(n) + b);
        law_decode_concat(q, a.skip(n), b);
    }
}

proof fn lemma_decode_scalar(p: TransportParams, id: u64, v: u64)
    requires
        is_scalar_id(id),
        v < VARINT_LIMIT,
    ensures
        decoded_params(p, scalar_bytes(id, v)) == Ok::<TransportParams, Seq<char>>(
            with_scalar(p, id, v),
        ),
{
    let s = scalar_bytes(id, v);
    let len = varint_len(v) as u64;
    lemma_varint_round_trip(id, varint_bytes(len) + varint_bytes(v));
    assert(s =~= varint_bytes(id) + (varint_bytes(len) + varint_bytes(v)));
    let s1 = s.skip(varint_len(id) as int);
    assert(s1 =~= varint_bytes(len) + varint_bytes(v));
    lemma_varint_round_trip(len, varint_bytes(v));
    let s2 = s1.skip(varint_len(len) as int);
    assert(s2 =~= varint_bytes(v));
    lemma_varint_round_trip(v, Seq::<u8>::empty());
    assert(varint_bytes(v) + Seq::<u8>::empty() =~= varint_bytes(v));
    assert(s2.take(len as int) =~= varint_bytes(v));
    let n = varint_len(id) + varint_len(len) + len;
    assert(triple_at(s) == Ok::<(u64, Seq<u8>, int), Seq<char>>((id, varint_bytes(v), n)));
    assert(s.skip(n) =~= Seq::<u8>::empty());
    assert(decoded_params(with_scalar(p, id, v), s.skip(n)) == Ok::<TransportParams, Seq<char>>(
        with_scalar(p, id, v),
    ));
}

/// A parameter whose identifier is not known is skipped, whatever its value.
pub proof fn law_unknown_param_ignored(p: TransportParams, id: u64, value: Seq<u8>)
    requires
        id < VARINT_LIMIT,
        value.len() < VARINT_LIMIT,
        !is_scalar_id(id),
        id != ID_DISABLE_ACTIVE_MIGRATION,
    ensures
        decoded_params(p, varint_bytes(id) + varint_bytes(value.len() as u64) + value) == Ok::<
            TransportParams,
            Seq<char>,
        >(p),
{
    let len = value.len() as u64;
    let s = varint_bytes(id) + varint_bytes(len) + value;
    lemma_varint_round_trip(id, varint_bytes(len) + value);
    assert(s =~= varint_bytes(id) + (varint_bytes(len) + value));
    let s1 = s.skip(varint_len(id) as int);
    assert(s1 =~= varint_bytes(len) + value);
    lemma_varint_round_trip(len, value);
    let s2 = s1.skip(varint_len(len) as int);
    assert(s2 =~= value);
    assert(s2.take(len as int) =~= value);
    let n = varint_len(id) + varint_len(len) + len;
    assert(triple_at(s) == Ok::<(u64, Seq<u8>, int), Seq<char>>((id, value, n)));
    assert(s.skip(n) =~= Seq::<u8>::empty());
    assert(decoded_params(p, s.skip(n)) == Ok::<TransportParams, Seq<char>>(p));
}

proof fn lemma_decode_flag(p: TransportParams)
    ensures
        decoded_params(p, flag_bytes(ID_DISABLE_ACTIVE_MIGRATION, true)) == Ok::<
            TransportParams,
            Seq<char>,
        >(TransportParams { disable_active_migration: true, ..p }),
{
    let s = flag_bytes(ID_DISABLE_ACTIVE_MIGRATION, true);
    lemma_varint_round_trip(ID_DISABLE_ACTIVE_MIGRATION, varint_bytes(0));
    let s1 = s.skip(1);
    assert(s1 =~= varint_bytes(0));
    lemma_varint_round_trip(0, Seq::<u8>::empty());
    assert(varint_bytes(0) + Seq::<u8>::empty() =~= varint_bytes(0));
    let s2 = s1.skip(1);
    assert(s2.take(0) =~= Seq::<u8>::empty());
    assert(triple_at(s) == Ok::<(u64, Seq<u8>, int), Seq<char>>(
        (ID_DISABLE_ACTIVE_MIGRATION, Seq::<u8>::empty(), 2),
    ));
    assert(s.skip(2) =~= Seq::<u8>::empty());
    let q = TransportParams { disable_active_migration: true, ..p };
    assert(decoded_params(q, s.skip(2)) == Ok::<TransportParams, Seq<char>>(q));
}

/// One more scalar at the end of an encoding.
proof fn lemma_append_scalar(q: TransportParams, s: Seq<u8>, id: u64, v: u64)
    requires
        decoded_params(default_params(), s) == Ok::<TransportParams, Seq<char>>(q),
        is_scalar_id(id),
        v < VARINT_LIMIT,
    ensures
        decoded_params(default_params(), s + scalar_bytes(id, v)) == Ok::<
            TransportParams,
            Seq<char>,
        >(with_scalar(q, id, v)),
{
    law_decode_concat(default_params(), s, scalar_bytes(id, v));
    lemma_decode_scalar(q, id, v);
}

/// One more scalar, left out where zero, of a parameter that is zero so far.
proof fn lemma_append_nonzero(q: TransportParams, s: Seq<u8>, id: u64, v: u64)
    requires
        decoded_params(default_params(), s) == Ok::<TransportParams, Seq<char>>(q),
        is_scalar_id(id),
        v < VARINT_LIMIT,
        q == with_scalar(q, id, 0),
    ensures
        decoded_params(default_params(), s + nonzero_bytes(id, v)) == Ok::<
            TransportParams,
            Seq<char>,
        >(with_scalar(q, id, v)),
{
    if v != 0 {
        lemma_append_scalar(q, s, id, v);
    } else {
        assert(s + nonzero_bytes(id, v) =~= s);
    }
}

/// The peer reads back exactly the parameters that were encoded.
pub proof fn law_params_round_trip(p: TransportParams)
    requires
        p.encodable(),
    ensures
        decoded_params(default_params(), encoded_params(p)) == Ok::<TransportParams, Seq<char>>(p),
{
    let s0 = Seq::<u8>::empty();
    let q0 = default_params();
    lemma_append_nonzero(q0, s0, ID_MAX_IDLE_TIMEOUT, p.max_idle_timeout_ms);
    let s1 = nonzero_bytes(ID_MAX_IDLE_TIMEOUT, p.max_idle_timeout_ms);
    assert(s0 + s1 =~= s1);
    let q1 = with_scalar(q0, ID_MAX_IDLE_TIMEOUT, p.max_idle_timeout_ms);
    lemma_append_scalar(q1, s1, ID_MAX_UDP_PAYLOAD_SIZE, p.max_udp_payload_size);
    let s2 = s1 + scalar_bytes(ID_MAX_UDP_PAYLOAD_SIZE, p.max_udp_payload_size);
    let q2 = with_scalar(q1, ID_MAX_UDP_PAYLOAD_SIZE, p.max_udp_payload_size);
    lemma_append_nonzero(q2, s2, ID_INITIAL_MAX_DATA, p.initial_max_data);
    let s3 = s2 + nonzero_bytes(ID_INITIAL_MAX_DATA, p.initial_max_data);
    let q3 = with_scalar(q2, ID_INITIAL_MAX_DATA, p.initial_max_data);
    let v4 = p.initial_max_stream_data_bidi_local;
    lemma_append_nonzero(q3, s3, ID_INITIAL_MAX_STREAM_DATA_BIDI_LOCAL, v4);
    let s4 = s3 + nonzero_bytes(ID_INITIAL_MAX_STREAM_DATA_BIDI_LOCAL, v4);
    let q4 = with_scalar(q3, ID_INITIAL_MAX_STREAM_DATA_BIDI_LOCAL, v4);
    let v5 = p.initial_max_stream_data_bidi_remote;
    lemma_append_nonzero(q4, s4, ID_INITIAL_MAX_STREAM_DATA_BIDI_REMOTE, v5);
    let s5 = s4 + nonzero_bytes(ID_INITIAL_MAX_STREAM_DATA_BIDI_REMOTE, v5);
    let q5 = with_scalar(q4, ID_INITIAL_MAX_STREAM_DATA_BIDI_REMOTE, v5);
    let v6 = p.initial_max_stream_data_uni;
    lemma_append_nonzero(q5, s5, ID_INITIAL_MAX_STREAM_DATA_UNI, v6);
    let s6 = s5 + nonzero_bytes(ID_INITIAL_MAX_STREAM_DATA_UNI, v6);
    let q6 = with_scalar(q5, ID_INITIAL_MAX_STREAM_DATA_UNI, v6);
    lemma_append_nonzero(q6, s6, ID_INITIAL_MAX_STREAMS_BIDI, p.initial_max_streams_bidi);
    let s7 = s6 + nonzero_bytes(ID_INITIAL_MAX_STREAMS_BIDI, p.initial_max_streams_bidi);
    let q7 = with_scalar(q6, ID_INITIAL_MAX_STREAMS_BIDI, p.initial_max_streams_bidi);
    lemma_append_nonzero(q7, s7, ID_INITIAL_MAX_STREAMS_UNI, p.initial_max_streams_uni);
    let s8 = s7 + nonzero_bytes(ID_INITIAL_MAX_STREAMS_UNI, p.initial_max_streams_uni);
    let q8 = with_scalar(q7, ID_INITIAL_MAX_STREAMS_UNI, p.initial_max_streams_uni);
    lemma_append_scalar(q8, s8, ID_ACK_DELAY_EXPONENT, p.ack_delay_exponent as u64);
    let s9 = s8 + scalar_bytes(ID_ACK_DELAY_EXPONENT, p.ack_delay_exponent as u64);
    let q9 = with_scalar(q8, ID_ACK_DELAY_EXPONENT, p.ack_delay_exponent as u64);
    lemma_append_scalar(q9, s9, ID_MAX_ACK_DELAY, p.max_ack_delay_ms);
    let s10 = s9 + scalar_bytes(ID_MAX_ACK_DELAY, p.max_ack_delay_ms);
    let q10 = with_scalar(q9, ID_MAX_ACK_DELAY, p.max_ack_delay_ms);
    lemma_append_scalar(q10, s10, ID_ACTIVE_CONNECTION_ID_LIMIT, p.active_connection_id_limit);
    let s11 = s10 + scalar_bytes(ID_ACTIVE_CONNECTION_ID_LIMIT, p.active_connection_id_limit);
    let q11 = with_scalar(q10, ID_ACTIVE_CONNECTION_ID_LIMIT, p.active_connection_id_limit);
    let f = flag_bytes(ID_DISABLE_ACTIVE_MIGRATION, p.disable_active_migration);
    let s12 = s11 + f;
    let q12 = TransportParams { disable_active_migration: p.disable_active_migration, ..q11 };
    if p.disable_active_migration {
        law_decode_concat(q0, s11, f);
        lemma_decode_flag(q11);
    } else {
        assert(s12 =~= s11);
    }
    assert(decoded_params(q0, s12) == Ok::<TransportParams, Seq<char>>(q12));
    lemma_append_nonzero(q12, s12, ID_MAX_DATAGRAM_FRAME_SIZE, p.max_datagram_frame_size);
}

/// Each identifier of a parameter with an integer value sets its own field, and no other,
/// to that integer; the exponent of the delay keeps to one byte (RFC 9000 Section 18.2,
/// RFC 9221 Section 3).
pub proof fn law_params_by_identifier(p: TransportParams, v: u64)
    requires
        v < 0x4000_0000_0000_0000,
    ensures
        ({
            let tail = varint_bytes(varint_len(v) as u64) + varint_bytes(v);
            &&& decoded_params(p, varint_bytes(0x01) + tail) == Ok::<TransportParams, Seq<char>>(
                TransportParams { max_idle_timeout_ms: v, ..p },
            )
            &&& decoded_params(p, varint_bytes(0x03) + tail) == Ok::<TransportParams, Seq<char>>(
                TransportParams { max_udp_payload_size: v, ..p },
            )
            &&& decoded_params(p, varint_bytes(0x04) + tail) == Ok::<TransportParams, Seq<char>>(
                TransportParams { initial_max_data: v, ..p },
            )
            &&& decoded_params(p, varint_bytes(0x05) + tail) == Ok::<TransportParams, Seq<char>>(
                TransportParams { initial_max_stream_data_bidi_local: v, ..p },
            )
            &&& decoded_params(p, varint_bytes(0x06) + tail) == Ok::<TransportParams, Seq<char>>(
                TransportParams { initial_max_stream_data_bidi_remote: v, ..p },
            )
            &&& decoded_params(p, varint_bytes(0x07) + tail) == Ok::<TransportParams, Seq<char>>(
                TransportParams { initial_max_stream_data_uni: v, ..p },
            )
            &&& decoded_params(p, varint_bytes(0x08) + tail) == Ok::<TransportParams, Seq<char>>(
                TransportParams { initial_max_streams_bidi: v, ..p },
            )
            &&& decoded_params(p, varint_bytes(0x09) + tail) == Ok::<TransportParams, Seq<char>>(
                TransportParams { initial_max_streams_uni: v, ..p },
            )
            &&& decoded_params(p, varint_bytes(0x0a) + tail) == Ok::<TransportParams, Seq<char>>(
                TransportParams {
                    ack_delay_exponent: if v < 256 {
                        v as u8
                    } else {
                        255
                    },
                    ..p
                },
            )
            &&& decoded_params(p, varint_bytes(0x0b) + tail) == Ok::<TransportParams, Seq<char>>(
                TransportParams { max_ack_delay_ms: v, ..p },
            )
            &&& decoded_params(p, varint_bytes(0x0e) + tail) == Ok::<TransportParams, Seq<char>>(
                TransportParams { active_connection_id_limit: v, ..p },
            )
            &&& decoded_params(p, varint_bytes(0x20) + tail) == Ok::<TransportParams, Seq<char>>(
                TransportParams { max_datagram_frame_size: v, ..p },
            )
            &&& decoded_params(p, varint_bytes(0x0c) + varint_bytes(0)) == Ok::<
                TransportParams,
                Seq<char>,
            >(TransportParams { disable_active_migration: true, ..p })
        }),
{
    let tail = varint_bytes(varint_len(v) as u64) + varint_bytes(v);
    assert forall|id: u64| is_scalar_id(id) implies #[trigger] decoded_params(
        p,
        varint_bytes(id) + tail,
    ) == Ok::<TransportParams, Seq<char>>(with_scalar(p, id, v)) by {
        lemma_decode_scalar(p, id, v);
        assert(varint_bytes(id) + tail =~= scalar_bytes(id, v));
    }
    lemma_decode_flag(p);
}

/// How parameters are written: one after the other in the order of the identifiers but for
/// the flag, each as its identifier, the length of its value and its value. Those whose
/// default is zero are left out where they are, the flag where it is not set; the others
/// are always written.
pub proof fn law_params_written(p: TransportParams)
    ensures
        encoded_params(p) =~= (if p.max_idle_timeout_ms == 0 {
            Seq::empty()
        } else {
            triple(0x01, p.max_idle_timeout_ms)
        }) + triple(0x03, p.max_udp_payload_size) + (if p.initial_max_data == 0 {
            Seq::empty()
        } else {
            triple(0x04, p.initial_max_data)
        }) + (if p.initial_max_stream_data_bidi_local == 0 {
            Seq::empty()
        } else {
            triple(0x05, p.initial_max_stream_data_bidi_local)
        }) + (if p.initial_max_stream_data_bidi_remote == 0 {
            Seq::empty()
        } else {
            triple(0x06, p.initial_max_stream_data_bidi_remote)
        }) + (if p.initial_max_stream_data_uni == 0 {
            Seq::empty()
        } else {
            triple(0x07, p.initial_max_stream_data_uni)
        }) + (if p.initial_max_streams_bidi == 0 {
            Seq::empty()
        } else {
            triple(0x08, p.initial_max_streams_bidi)
        }) + (if p.initial_max_streams_uni == 0 {
            Seq::empty()
        } else {
            triple(0x09, p.initial_max_streams_uni)
        }) + triple(0x0a, p.ack_delay_exponent as u64) + triple(0x0b, p.max_ack_delay_ms) + triple(
            0x0e,
            p.active_connection_id_limit,
        ) + (if p.disable_active_migration {
            varint_bytes(0x0c) + varint_bytes(0)
        } else {
            Seq::empty()
        }) + (if p.max_datagram_frame_size == 0 {
            Seq::empty()
        } else {
            triple(0x20, p.max_datagram_frame_size)
        }),
{
}

/// An identifier, the length of a value and the value.
pub open spec fn triple(id: u64, value: u64) -> Seq<u8> {
    varint_bytes(id) + varint_bytes(varint_len(value) as u64) + varint_bytes(value)
}

/// What holds of parameters that are not sent (RFC 9000 Section 18.2).
pub proof fn law_params_not_sent()
    ensures
        ({
            let p = decoded_params(default_params(), Seq::empty());
            p matches Ok(d) && d.max_idle_timeout_ms == 0 && d.max_udp_payload_size == 65527
                && d.initial_max_data == 0 && d.initial_max_stream_data_bidi_local == 0
                && d.initial_max_stream_data_bidi_remote == 0 && d.initial_max_stream_data_uni == 0
                && d.initial_max_streams_bidi == 0 && d.initial_max_streams_uni == 0
                && d.ack_delay_exponent == 3 && d.max_ack_delay_ms == 25
                && d.active_connection_id_limit == 2 && !d.disable_active_migration
                && d.max_datagram_frame_size == 0
        }),
{
}

/// The value of an integer parameter must be one integer and no more, the flag must have no
/// value, and no value may reach beyond the end.
pub proof fn law_malformed_params_refused(
    p: TransportParams,
    id: u64,
    v: u64,
    extra: Seq<u8>,
    missing: u64,
    value: Seq<u8>,
)
    requires
        id == 0x01 || 0x03 <= id <= 0x0b || id == 0x0e || id == 0x20,
        v < 0x4000_0000_0000_0000,
        0 < extra.len() < 0x1000_0000,
        0 < missing,
        value.len() + missing < 0x4000_0000_0000_0000,
    ensures
        decoded_params(
            p,
            varint_bytes(id) + varint_bytes((varint_len(v) + extra.len()) as u64) + (varint_bytes(v)
                + extra),
        ) == Err::<TransportParams, Seq<char>>("trailing bytes in transport parameter value"@),
        decoded_params(p, varint_bytes(id) + varint_bytes(0) + Seq::empty()) == Err::<
            TransportParams,
            Seq<char>,
        >("transport parameter value is not a varint"@),
        decoded_params(p, varint_bytes(0x0c) + varint_bytes(extra.len() as u64) + extra) == Err::<
            TransportParams,
            Seq<char>,
        >("disable_active_migration must be zero-length"@),
        decoded_params(
            p,
            varint_bytes(id) + varint_bytes((value.len() + missing) as u64) + value,
        ) == Err::<TransportParams, Seq<char>>("transport parameter length overruns buffer"@),
        decoded_params(p, varint_bytes(id)) == Err::<TransportParams, Seq<char>>(
            "truncated transport parameter length"@,
        ),
{
    let whole = varint_bytes(v) + extra;
    lemma_varint_round_trip(v, extra);
    lemma_triple(id, whole, whole.len() as u64);
    assert(varint_bytes(v).len() == varint_len(v));
    lemma_triple(id, Seq::empty(), 0);
    reveal(varint_at);
    lemma_triple(0x0c, extra, extra.len() as u64);
    lemma_triple(id, value, (value.len() + missing) as u64);
    lemma_varint_round_trip(id, Seq::empty());
    assert(varint_bytes(id) + Seq::<u8>::empty() =~= varint_bytes(id));
    assert(varint_bytes(id).skip(varint_len(id) as int) =~= Seq::empty());
}

/// A triple is read back, unless its value is shorter than its length says.
proof fn lemma_triple(id: u64, value: Seq<u8>, len: u64)
    requires
        id < VARINT_LIMIT,
        value.len() <= len < VARINT_LIMIT,
    ensures
        ({
            let s = varint_bytes(id) + varint_bytes(len) + value;
            &&& s.len() > 0
            &&& value.len() == len ==> triple_at(s) == Ok::<(u64, Seq<u8>, int), Seq<char>>(
                (id, value, s.len() as int),
            )
            &&& value.len() < len ==> triple_at(s) == Err::<(u64, Seq<u8>, int), Seq<char>>(
                "transport parameter length overruns buffer"@,
            )
        }),
{
    let s = varint_bytes(id) + varint_bytes(len) + value;
    lemma_varint_round_trip(id, varint_bytes(len) + value);
    assert(s =~= varint_bytes(id) + (varint_bytes(len) + value));
    let s1 = s.skip(varint_len(id) as int);
    assert(s1 =~= varint_bytes(len) + value);
    lemma_varint_round_trip(len, value);
    let s2 = s1.skip(varint_len(len) as int);
    assert(s2 =~= value);
    if value.len() == len {
        assert(s2.take(len as int) =~= value);
    }
}

} // verus!
