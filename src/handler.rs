//! What one connection gets back for the bytes that its single read brought.

use crate::envelope::{
    encode_envelope, envelope_decode, envelope_encoding, lemma_envelope_round_trip, ClientMessage,
};
use crate::message::{echo_encoding, EchoMessage};
use prost::DecodeError;
use vstd::prelude::*;

verus! {

/// How many bytes the one read of a connection takes at most; a longer message
/// is cut off there.
pub const READ_BUFFER_SIZE: usize = 512;

/// What a connection's handler does with the bytes it read.
pub enum Reply {
    /// Nothing was read: the peer closed the connection before sending.
    Disconnected,
    /// The bytes are no request: nothing is sent back.
    Undecodable(DecodeError),
    /// The request carries no echo message: nothing is sent back.
    NoEcho,
    /// The request carries `message`; `payload`, the response carrying the same
    /// message, is written back.
    Echo { message: EchoMessage, payload: Vec<u8> },
}

/// The bytes written back for what was read, or `None` where nothing is.
pub open spec fn reply_bytes(received: Seq<u8>) -> Option<Seq<u8>> {
    if received.len() == 0 {
        None
    } else {
        match envelope_decode(received) {
            Some(Some(text)) => Some(envelope_encoding(Some(text))),
            _ => None,
        }
    }
}

/// Decides the reply to the bytes of one read: no reply for an empty read, for
/// bytes that are no request, or for a request without an echo; else the
/// response carrying the request's echo text.
pub fn respond(received: &[u8]) -> (r: Reply)
    ensures
        r is Disconnected <==> received@.len() == 0,
        r is Undecodable <==> received@.len() > 0 && envelope_decode(received@) is None,
        r is NoEcho <==> received@.len() > 0 && envelope_decode(received@) == Some(
            None::<Seq<char>>,
        ),
        match r {
            Reply::Echo { message, payload } => envelope_decode(received@) == Some(
                Some(message.content@),
            ) && reply_bytes(received@) == Some(payload@),
            _ => reply_bytes(received@) is None,
        },
{
    if received.len() == 0 {
        return Reply::Disconnected;
    }
    match ClientMessage::decode(received) {
        Ok(request) => {
            // the response carries the same echo as the request
            let payload = encode_envelope(&request.message);
            match request.message {
                Some(message) => Reply::Echo { message, payload },
                None => Reply::NoEcho,
            }
        },
        Err(e) => Reply::Undecodable(e),
    }
}

/// Whatever text a request carries, the reply to it is a non-empty response
/// that decodes to that same text.
pub proof fn lemma_reply_decodes_to_request(received: Seq<u8>, text: Seq<char>)
    requires
        received.len() > 0,
        envelope_decode(received) == Some(Some(text)),
        echo_encoding(text).len() <= u64::MAX,
    ensures
        reply_bytes(received) matches Some(out) && out.len() > 0 && envelope_decode(out) == Some(
            Some(text),
        ),
{
    lemma_envelope_round_trip(text);
}

/// Sending the encoded request for any text, the empty text included, gets back
/// the encoded response for that text, which decodes to the text.
pub proof fn lemma_echo_request_round_trip(text: Seq<char>)
    requires
        echo_encoding(text).len() <= u64::MAX,
    ensures
        reply_bytes(envelope_encoding(Some(text))) == Some(envelope_encoding(Some(text))),
        envelope_decode(envelope_encoding(Some(text))) == Some(Some(text)),
{
    lemma_envelope_round_trip(text);
}

/// Requests with different texts get different replies, each decoding to its
/// own request's text: no reply carries another request's text.
pub proof fn lemma_replies_keep_their_own_text(
    a: Seq<u8>,
    b: Seq<u8>,
    text_a: Seq<char>,
    text_b: Seq<char>,
)
    requires
        a.len() > 0,
        b.len() > 0,
        envelope_decode(a) == Some(Some(text_a)),
        envelope_decode(b) == Some(Some(text_b)),
        text_a != text_b,
        echo_encoding(text_a).len() <= u64::MAX,
        echo_encoding(text_b).len() <= u64::MAX,
    ensures
        reply_bytes(a) matches Some(out_a) && envelope_decode(out_a) == Some(Some(text_a)),
        reply_bytes(b) matches Some(out_b) && envelope_decode(out_b) == Some(Some(text_b)),
        reply_bytes(a) != reply_bytes(b),
{
    lemma_envelope_round_trip(text_a);
    lemma_envelope_round_trip(text_b);
}

} // verus!
