//! The request and response wrappers: each may carry an echo message as its
//! field 1, nested as a length-delimited message.

use crate::message::{
    echo_encoding, lemma_echo_round_trip, merge_content, merge_fields, skipped_len, decode_key_at,
    skip_field_at, EchoMessage,
};
use crate::wire::{
    field_key, lemma_field_key_len, lemma_varint_bound_u64, lemma_varint_round_trip, varint,
    varint_bytes, LENGTH_DELIMITED, MAX_TAG,
};
use prost::DecodeError;
use vstd::prelude::*;
use vstd::slice::slice_subrange;
use vstd::utf8::encode_utf8;

verus! {

/// The tag of the wrappers' echo field.
pub const ECHO_TAG: u32 = 1;

/// A length-delimited field's body at the start of `s` (after its key): the
/// bytes and the number of bytes that the length prefix and they take.
pub open spec fn length_delimited(wire_type: u8, s: Seq<u8>) -> Option<(Seq<u8>, nat)> {
    if wire_type != LENGTH_DELIMITED {
        None
    } else {
        match varint(s) {
            Some((len, n)) => if n + len > s.len() {
                None
            } else {
                Some((s.subrange(n as int, (n + len) as int), n + len))
            },
            None => None,
        }
    }
}

/// Decoding the fields in `rest` into a wrapper whose echo text is so far `echo`
/// (`None`: no echo yet). An echo field is merged into the echo already there;
/// any other field is skipped.
pub open spec fn envelope_fields(rest: Seq<u8>, echo: Option<Seq<char>>) -> Option<Option<Seq<char>>>
    decreases rest.len(),
{
    if rest.len() == 0 {
        Some(echo)
    } else {
        match field_key(rest) {
            Some((tag, wire_type, n)) => if n == 0 || n > rest.len() {
                None
            } else {
                let body = rest.subrange(n as int, rest.len() as int);
                if tag == ECHO_TAG {
                    match length_delimited(wire_type, body) {
                        Some((nested, m)) => if m > body.len() {
                            None
                        } else {
                            let start = match echo {
                                Some(text) => text,
                                None => Seq::empty(),
                            };
                            match merge_fields(nested, start) {
                                Some(text) => envelope_fields(
                                    body.subrange(m as int, body.len() as int),
                                    Some(text),
                                ),
                                None => None,
                            }
                        },
                        None => None,
                    }
                } else {
                    match skipped_len(wire_type, tag, body) {
                        Some(m) => if m > body.len() {
                            None
                        } else {
                            envelope_fields(body.subrange(m as int, body.len() as int), echo)
                        },
                        None => None,
                    }
                }
            },
            None => None,
        }
    }
}

/// The echo text, if any, of the wrapper that `bytes` encode; `None` where they
/// do not decode.
pub open spec fn envelope_decode(bytes: Seq<u8>) -> Option<Option<Seq<char>>> {
    envelope_fields(bytes, None)
}

/// The encoding of a wrapper: nothing without an echo, else the echo field's
/// key, the nested message's length and the nested message.
pub open spec fn envelope_encoding(echo: Option<Seq<char>>) -> Seq<u8> {
    match echo {
        Some(text) => varint_bytes((ECHO_TAG * 8 + LENGTH_DELIMITED) as nat) + varint_bytes(
            echo_encoding(text).len(),
        ) + echo_encoding(text),
        None => Seq::empty(),
    }
}

/// The echo text that a wrapper's field holds.
pub open spec fn echo_text(echo: Option<EchoMessage>) -> Option<Seq<char>> {
    match echo {
        Some(m) => Some(m.content@),
        None => None,
    }
}

/// Relies on prost::encoding::bytes::merge: reads a length-delimited field's
/// length and bytes at the start of `rest`, returning the bytes and how many
/// bytes of `rest` are left.
#[verifier::external_body]
fn merge_bytes_at(wire_type: u8, rest: &[u8]) -> (r: Result<(Vec<u8>, usize), DecodeError>)
    requires
        wire_type <= 5,
    ensures
        match r {
            Ok((bytes, left)) => left <= rest@.len() && length_delimited(wire_type, rest@) == Some(
                (bytes@, (rest@.len() - left) as nat),
            ),
            Err(_) => length_delimited(wire_type, rest@) is None,
        },
{
    let mut buf = rest;
    let mut bytes: Vec<u8> = Vec::new();
    let wire_type = prost::encoding::WireType::try_from(u64::from(wire_type))?;
    let ctx = prost::encoding::DecodeContext::default();
    prost::encoding::bytes::merge(wire_type, &mut bytes, &mut buf, ctx)?;
    Ok((bytes, buf.len()))
}

/// Relies on prost::encoding::bytes::encode: appends the key of field `tag` with
/// the length-delimited wire type, the length of `value` and its bytes.
#[verifier::external_body]
fn encode_bytes_field(tag: u32, value: &Vec<u8>, buf: &mut Vec<u8>)
    requires
        1 <= tag <= MAX_TAG,
    ensures
        final(buf)@ == old(buf)@ + varint_bytes((tag * 8 + LENGTH_DELIMITED) as nat)
            + varint_bytes(value@.len()) + value@,
{
    prost::encoding::bytes::encode(tag, value, buf)
}

/// Decodes a wrapper from the whole of `bytes`.
fn decode_envelope(bytes: &[u8]) -> (r: Result<Option<EchoMessage>, DecodeError>)
    ensures
        match r {
            Ok(echo) => envelope_decode(bytes@) == Some(echo_text(echo)),
            Err(_) => envelope_decode(bytes@) is None,
        },
{
    let mut echo: Option<EchoMessage> = None;
    let mut pos: usize = 0;
    assert(bytes@.subrange(0, bytes@.len() as int) =~= bytes@);
    while pos < bytes.len()
        invariant
            pos <= bytes@.len(),
            envelope_fields(bytes@.subrange(pos as int, bytes@.len() as int), echo_text(echo))
                == envelope_decode(bytes@),
        decreases bytes@.len() - pos,
    {
        let ghost rest_seq = bytes@.subrange(pos as int, bytes@.len() as int);
        let rest = slice_subrange(bytes, pos, bytes.len());
        let (tag, wire_type, left) = match decode_key_at(rest) {
            Ok(k) => k,
            Err(e) => {
                return Err(e);
            },
        };
        proof {
            lemma_field_key_len(rest_seq);
        }
        let body_pos = bytes.len() - left;
        let body = slice_subrange(bytes, body_pos, bytes.len());
        assert(body@ =~= rest_seq.subrange((rest_seq.len() - left) as int, rest_seq.len() as int));
        if tag == ECHO_TAG {
            match merge_bytes_at(wire_type, body) {
                Ok((nested, after)) => {
                    assert(body@.subrange((body@.len() - after) as int, body@.len() as int)
                        =~= bytes@.subrange((bytes@.len() - after) as int, bytes@.len() as int));
                    let start = match echo {
                        Some(m) => m.content,
                        None => String::new(),
                    };
                    match merge_content(nested.as_slice(), start) {
                        Ok(text) => {
                            echo = Some(EchoMessage { content: text });
                        },
                        Err(e) => {
                            return Err(e);
                        },
                    }
                    pos = bytes.len() - after;
                },
                Err(e) => {
                    return Err(e);
                },
            }
        } else {
            match skip_field_at(wire_type, tag, body) {
                Ok(after) => {
                    assert(body@.subrange((body@.len() - after) as int, body@.len() as int)
                        =~= bytes@.subrange((bytes@.len() - after) as int, bytes@.len() as int));
                    pos = bytes.len() - after;
                },
                Err(e) => {
                    return Err(e);
                },
            }
        }
    }
    assert(bytes@.subrange(pos as int, bytes@.len() as int).len() == 0);
    Ok(echo)
}

/// Encodes a wrapper: nothing without an echo, else its one field.
pub(crate) fn encode_envelope(echo: &Option<EchoMessage>) -> (r: Vec<u8>)
    ensures
        r@ == envelope_encoding(echo_text(*echo)),
{
    let mut buf: Vec<u8> = Vec::new();
    match echo {
        Some(m) => {
            let nested = m.encode_to_vec();
            encode_bytes_field(ECHO_TAG, &nested, &mut buf);
        },
        None => {},
    }
    assert(buf@ =~= envelope_encoding(echo_text(*echo)));
    buf
}

/// What a client sends: a request that may carry an echo message.
#[derive(Debug)]
pub struct ClientMessage {
    pub message: Option<EchoMessage>,
}

/// What the server sends back: a response that may carry an echo message.
#[derive(Debug)]
pub struct ServerMessage {
    pub message: Option<EchoMessage>,
}

impl ClientMessage {
    /// Decodes a request from the whole of `bytes`.
    pub fn decode(bytes: &[u8]) -> (r: Result<ClientMessage, DecodeError>)
        ensures
            match r {
                Ok(m) => envelope_decode(bytes@) == Some(echo_text(m.message)),
                Err(_) => envelope_decode(bytes@) is None,
            },
    {
        match decode_envelope(bytes) {
            Ok(message) => Ok(ClientMessage { message }),
            Err(e) => Err(e),
        }
    }

    /// Encodes the request.
    pub fn encode_to_vec(&self) -> (r: Vec<u8>)
        ensures
            r@ == envelope_encoding(echo_text(self.message)),
    {
        encode_envelope(&self.message)
    }
}

impl ServerMessage {
    /// Decodes a response from the whole of `bytes`.
    pub fn decode(bytes: &[u8]) -> (r: Result<ServerMessage, DecodeError>)
        ensures
            match r {
                Ok(m) => envelope_decode(bytes@) == Some(echo_text(m.message)),
                Err(_) => envelope_decode(bytes@) is None,
            },
    {
        match decode_envelope(bytes) {
            Ok(message) => Ok(ServerMessage { message }),
            Err(e) => Err(e),
        }
    }

    /// Encodes the response.
    pub fn encode_to_vec(&self) -> (r: Vec<u8>)
        ensures
            r@ == envelope_encoding(echo_text(self.message)),
    {
        encode_envelope(&self.message)
    }
}

/// Decoding the encoding of a wrapper that carries an echo gives back its text.
pub proof fn lemma_envelope_round_trip(text: Seq<char>)
    requires
        echo_encoding(text).len() <= u64::MAX,
    ensures
        envelope_decode(envelope_encoding(Some(text))) == Some(Some(text)),
        envelope_encoding(Some(text)).len() > 0,
{
    reveal_with_fuel(envelope_fields, 2);
    let e = echo_encoding(text);
    let len = e.len();
    assert(encode_utf8(text).len() <= e.len());
    lemma_echo_round_trip(text);
    let s = envelope_encoding(Some(text));
    let tail = varint_bytes(len) + e;
    lemma_varint_bound_u64(10);
    lemma_varint_bound_u64(len as u64);
    lemma_varint_round_trip(10, tail, 0);
    lemma_varint_round_trip(len, e, 0);
    assert(varint_bytes(10) =~= seq![10u8]);
    assert(s =~= varint_bytes(10) + tail);
    assert(field_key(s) == Some((1u32, 2u8, 1nat)));
    let body = s.subrange(1, s.len() as int);
    assert(body =~= tail);
    let n = varint_bytes(len).len();
    assert(body.subrange(n as int, (n + len) as int) =~= e);
    assert(length_delimited(2, body) == Some((e, n + len)));
    assert(body.subrange((n + len) as int, body.len() as int) =~= Seq::<u8>::empty());
    assert(s[0] == 10u8);
}

} // verus!
