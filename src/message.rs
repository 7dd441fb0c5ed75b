//! The echo message: a single text field, tag 1, in the protobuf wire format.

use crate::wire::{
    field_key, lemma_field_key_len, lemma_varint_bound_u64, lemma_varint_round_trip, varint,
    varint_bytes, LENGTH_DELIMITED, MAX_TAG,
};
use prost::DecodeError;
use vstd::prelude::*;
use vstd::slice::slice_subrange;
use vstd::utf8::{decode_utf8, encode_utf8, encode_utf8_decode_utf8, encode_utf8_valid_utf8, valid_utf8};

verus! {

/// The error of a failed decode, as prost reports it.
#[verifier::external_type_specification]
#[verifier::external_body]
pub struct ExDecodeError(prost::DecodeError);

/// The tag of the echo message's text field.
pub const CONTENT_TAG: u32 = 1;

/// A string field at the start of `s` (after its key): the text and the number
/// of bytes it takes. It must have the length-delimited wire type, its length
/// prefix must fit in what follows, and those bytes must be UTF-8.
pub open spec fn string_field(wire_type: u8, s: Seq<u8>) -> Option<(Seq<char>, nat)> {
    if wire_type != LENGTH_DELIMITED {
        None
    } else {
        match varint(s) {
            Some((len, n)) => if n + len > s.len() {
                None
            } else if valid_utf8(s.subrange(n as int, (n + len) as int)) {
                Some((decode_utf8(s.subrange(n as int, (n + len) as int)), n + len))
            } else {
                None
            },
            None => None,
        }
    }
}

/// How many bytes prost's field skipping consumes for a field of this wire type
/// and tag whose key has been read, at the start of `rest`; `None` where it fails.
pub uninterp spec fn skipped_len(wire_type: u8, tag: u32, rest: Seq<u8>) -> Option<nat>;

/// Decoding the fields in `rest` into a message whose text is so far `content`:
/// the text field replaces the text, any other field is skipped.
pub open spec fn merge_fields(rest: Seq<u8>, content: Seq<char>) -> Option<Seq<char>>
    decreases rest.len(),
{
    if rest.len() == 0 {
        Some(content)
    } else {
        match field_key(rest) {
            Some((tag, wire_type, n)) => if n == 0 || n > rest.len() {
                None
            } else {
                let body = rest.subrange(n as int, rest.len() as int);
                if tag == CONTENT_TAG {
                    match string_field(wire_type, body) {
                        Some((text, m)) => if m > body.len() {
                            None
                        } else {
                            merge_fields(body.subrange(m as int, body.len() as int), text)
                        },
                        None => None,
                    }
                } else {
                    match skipped_len(wire_type, tag, body) {
                        Some(m) => if m > body.len() {
                            None
                        } else {
                            merge_fields(body.subrange(m as int, body.len() as int), content)
                        },
                        None => None,
                    }
                }
            },
            None => None,
        }
    }
}

/// The text of the echo message that `bytes` encode, or `None` where they do not
/// decode.
pub open spec fn echo_decode(bytes: Seq<u8>) -> Option<Seq<char>> {
    merge_fields(bytes, Seq::empty())
}

/// The encoding of an echo message with this text: nothing for the empty text,
/// else the text field's key, the byte length and the UTF-8 bytes.
pub open spec fn echo_encoding(content: Seq<char>) -> Seq<u8> {
    if content.len() == 0 {
        Seq::empty()
    } else {
        varint_bytes((CONTENT_TAG * 8 + LENGTH_DELIMITED) as nat) + varint_bytes(
            encode_utf8(content).len(),
        ) + encode_utf8(content)
    }
}

/// Decoding the encoding of an echo message gives back its text.
pub proof fn lemma_echo_round_trip(content: Seq<char>)
    requires
        encode_utf8(content).len() <= u64::MAX,
    ensures
        echo_decode(echo_encoding(content)) == Some(content),
{
    reveal_with_fuel(merge_fields, 2);
    if content.len() > 0 {
        let b = encode_utf8(content);
        let len = b.len();
        let s = echo_encoding(content);
        let tail = varint_bytes(len) + b;
        lemma_varint_bound_u64(10);
        lemma_varint_bound_u64(len as u64);
        lemma_varint_round_trip(10, tail, 0);
        lemma_varint_round_trip(len, b, 0);
        assert(varint_bytes(10) =~= seq![10u8]);
        assert(s =~= varint_bytes(10) + tail);
        assert(field_key(s) == Some((1u32, 2u8, 1nat)));
        let body = s.subrange(1, s.len() as int);
        assert(body =~= tail);
        let n = varint_bytes(len).len();
        assert(body.subrange(n as int, (n + len) as int) =~= b);
        encode_utf8_valid_utf8(content);
        encode_utf8_decode_utf8(content);
        assert(string_field(2, body) == Some((content, n + len)));
        assert(body.subrange((n + len) as int, body.len() as int) =~= Seq::<u8>::empty());
    }
}

/// Relies on prost::encoding::decode_key: reads the key at the start of `rest`
/// and returns its tag, its wire type and how many bytes of `rest` are left.
#[verifier::external_body]
pub(crate) fn decode_key_at(rest: &[u8]) -> (r: Result<(u32, u8, usize), DecodeError>)
    ensures
        match r {
            Ok((tag, wire_type, left)) => left <= rest@.len() && field_key(rest@) == Some(
                (tag, wire_type, (rest@.len() - left) as nat),
            ),
            Err(_) => field_key(rest@) is None,
        },
{
    let mut buf = rest;
    let (tag, wire_type) = prost::encoding::decode_key(&mut buf)?;
    Ok((tag, wire_type as u8, buf.len()))
}

/// Relies on prost::encoding::string::merge: reads a string field's length and
/// UTF-8 bytes at the start of `rest`, returning the text and how many bytes of
/// `rest` are left.
#[verifier::external_body]
fn merge_string_at(wire_type: u8, rest: &[u8]) -> (r: Result<(String, usize), DecodeError>)
    requires
        wire_type <= 5,
    ensures
        match r {
            Ok((text, left)) => left <= rest@.len() && string_field(wire_type, rest@) == Some(
                (text@, (rest@.len() - left) as nat),
            ),
            Err(_) => string_field(wire_type, rest@) is None,
        },
{
    let mut buf = rest;
    let mut text = String::new();
    let wire_type = prost::encoding::WireType::try_from(u64::from(wire_type))?;
    let ctx = prost::encoding::DecodeContext::default();
    prost::encoding::string::merge(wire_type, &mut text, &mut buf, ctx)?;
    Ok((text, buf.len()))
}

/// Relies on prost::encoding::skip_field: skips the body of a field whose key
/// has been read, returning how many bytes of `rest` are left.
#[verifier::external_body]
pub(crate) fn skip_field_at(wire_type: u8, tag: u32, rest: &[u8]) -> (r: Result<usize, DecodeError>)
    requires
        wire_type <= 5,
    ensures
        match r {
            Ok(left) => left <= rest@.len() && skipped_len(wire_type, tag, rest@) == Some(
                (rest@.len() - left) as nat,
            ),
            Err(_) => skipped_len(wire_type, tag, rest@) is None,
        },
{
    let mut buf = rest;
    let wire_type = prost::encoding::WireType::try_from(u64::from(wire_type))?;
    let ctx = prost::encoding::DecodeContext::default();
    prost::encoding::skip_field(wire_type, tag, &mut buf, ctx)?;
    Ok(buf.len())
}

/// Relies on prost::encoding::string::encode: appends the key of field `tag`
/// with the length-delimited wire type, the text's byte length and its UTF-8
/// bytes.
#[verifier::external_body]
fn encode_string_field(tag: u32, text: &String, buf: &mut Vec<u8>)
    requires
        1 <= tag <= MAX_TAG,
    ensures
        final(buf)@ == old(buf)@ + varint_bytes((tag * 8 + LENGTH_DELIMITED) as nat)
            + varint_bytes(encode_utf8(text@).len()) + encode_utf8(text@),
{
    prost::encoding::string::encode(tag, text, buf)
}

/// Decodes the fields in the whole of `bytes` into a message whose text is so
/// far `start`, returning the text it ends with.
pub(crate) fn merge_content(bytes: &[u8], start: String) -> (r: Result<String, DecodeError>)
    ensures
        match r {
            Ok(text) => merge_fields(bytes@, start@) == Some(text@),
            Err(_) => merge_fields(bytes@, start@) is None,
        },
{
    let mut content = start;
    let mut pos: usize = 0;
    assert(bytes@.subrange(0, bytes@.len() as int) =~= bytes@);
    while pos < bytes.len()
        invariant
            pos <= bytes@.len(),
            merge_fields(bytes@.subrange(pos as int, bytes@.len() as int), content@)
                == merge_fields(bytes@, start@),
        decreases bytes@.len() - pos,
    {
        let ghost rest_seq = bytes@.subrange(pos as int, bytes@.len() as int);
        let rest = slice_subrange(bytes, pos, bytes.len());
        let (tag, wire_type, left) = match decode_key_at(rest) {
            Ok(k) => k,
            Err(e) => {
                return Err(e);
            },
        };
        proof {
            lemma_field_key_len(rest_seq);
        }
        let body_pos = bytes.len() - left;
        let body = slice_subrange(bytes, body_pos, bytes.len());
        assert(body@ =~= rest_seq.subrange((rest_seq.len() - left) as int, rest_seq.len() as int));
        if tag == CONTENT_TAG {
            match merge_string_at(wire_type, body) {
                Ok((text, after)) => {
                    assert(body@.subrange((body@.len() - after) as int, body@.len() as int)
                        =~= bytes@.subrange((bytes@.len() - after) as int, bytes@.len() as int));
                    content = text;
                    pos = bytes.len() - after;
                },
                Err(e) => {
                    return Err(e);
                },
            }
        } else {
            match skip_field_at(wire_type, tag, body) {
                Ok(after) => {
                    assert(body@.subrange((body@.len() - after) as int, body@.len() as int)
                        =~= bytes@.subrange((bytes@.len() - after) as int, bytes@.len() as int));
                    pos = bytes.len() - after;
                },
                Err(e) => {
                    return Err(e);
                },
            }
        }
    }
    assert(bytes@.subrange(pos as int, bytes@.len() as int).len() == 0);
    Ok(content)
}

/// An echo message: the text that a client sends and gets back.
#[derive(Debug)]
pub struct EchoMessage {
    pub content: String,
}

impl EchoMessage {
    /// Decodes an echo message from the whole of `bytes`.
    pub fn decode(bytes: &[u8]) -> (r: Result<EchoMessage, DecodeError>)
        ensures
            match r {
                Ok(m) => echo_decode(bytes@) == Some(m.content@),
                Err(_) => echo_decode(bytes@) is None,
            },
    {
        let content = String::new();
        assert(content@ =~= Seq::<char>::empty());
        match merge_content(bytes, content) {
            Ok(content) => Ok(EchoMessage { content }),
            Err(e) => Err(e),
        }
    }

    /// Encodes the message: nothing for the empty text, else its one field.
    pub fn encode_to_vec(&self) -> (r: Vec<u8>)
        ensures
            r@ == echo_encoding(self.content@),
    {
        let mut buf: Vec<u8> = Vec::new();
        if !self.content.as_str().is_empty() {
            encode_string_field(CONTENT_TAG, &self.content, &mut buf);
        }
        assert(buf@ =~= echo_encoding(self.content@));
        buf
    }
}

} // verus!
