use vstd::prelude::*;
use vstd::utf8::{decode_utf8, encode_utf8, valid_utf8};
use crate::codec::{decode_spec, decode_text, encode_text, encode_spec, lemma_round_trip, well_formed, DecodeError, Message, MessageView};

verus! {

/// Longest message text, in characters, that goes into an envelope: its
/// UTF-8 bytes then stay below 2^32, the most a MessagePack string header holds.
pub const MAX_ENVELOPE_CHARS: usize = 0x4000_0000;

/// The error of `rmp_serde::from_slice`, carried through opaquely.
#[verifier::external_type_specification]
#[verifier::external_body]
pub struct ExEnvelopeReadError(rmp_serde::decode::Error);

/// The error of `rmp_serde::to_vec`, carried through opaquely.
#[verifier::external_type_specification]
#[verifier::external_body]
pub struct ExEnvelopeWriteError(rmp_serde::encode::Error);

/// The string that `rmp_serde` reads from MessagePack bytes, or `None` where
/// the bytes hold no string.
pub uninterp spec fn envelope_text(bytes: Seq<u8>) -> Option<Seq<char>>;

/// The MessagePack bytes that `rmp_serde` writes for a string.
pub uninterp spec fn envelope_bytes(text: Seq<char>) -> Seq<u8>;

/// A first byte that opens a MessagePack str (`0xa0..=0xbf`, `0xd9..=0xdb`)
/// or bin (`0xc4..=0xc6`): the only values from which a string is read.
pub open spec fn is_string_marker(b: u8) -> bool {
    (0xa0 <= b && b <= 0xbf) || (0xc4 <= b && b <= 0xc6) || (0xd9 <= b && b <= 0xdb)
}

pub open spec fn opens_envelope(bytes: Seq<u8>) -> bool {
    bytes.len() > 0 && is_string_marker(bytes[0])
}

/// Relies on `rmp_serde::from_slice::<String>`: it reads a string from the
/// MessagePack bytes or fails; the result depends on the bytes alone, and
/// it reads a string only after a str or bin marker (`decode.rs`, `any_inner`).
#[verifier::external_body]
fn open_envelope(bytes: &[u8]) -> (r: Result<String, rmp_serde::decode::Error>)
    ensures
        r is Ok <==> envelope_text(bytes@) is Some,
        r matches Ok(s) ==> envelope_text(bytes@) == Some(s@),
        r is Ok ==> opens_envelope(bytes@),
{
    rmp_serde::from_slice::<String>(bytes)
}

/// Relies on `rmp_serde::to_vec` on a string: it writes a str marker, the
/// length and the UTF-8 bytes, which `rmp_serde::from_slice` reads back while
/// the length fits the header; its writer fails only when memory runs out.
#[verifier::external_body]
fn seal_envelope(text: &String) -> (r: Result<Vec<u8>, rmp_serde::encode::Error>)
    requires
        text@.len() < MAX_ENVELOPE_CHARS,
    ensures
        r is Ok,
        r matches Ok(b) ==> b@ == envelope_bytes(text@),
        r matches Ok(b) ==> envelope_text(b@) == Some(text@),
        r matches Ok(b) ==> opens_envelope(b@),
{
    rmp_serde::to_vec(text)
}

/// Relies on `std::str::from_utf8`: it accepts exactly the valid UTF-8 byte
/// sequences, and the text holds the characters they encode.
#[verifier::external_body]
fn utf8_text(bytes: &[u8]) -> (r: Option<String>)
    ensures
        r is Some <==> valid_utf8(bytes@),
        r matches Some(s) ==> s@ == decode_utf8(bytes@),
{
    std::str::from_utf8(bytes).ok().map(|s| s.to_string())
}

/// The message that received bytes hold: bytes that open with a MessagePack
/// string marker are read as a binary envelope around the message's text;
/// any other bytes are read as the text itself, in UTF-8.
pub open spec fn decode_message_spec(bytes: Seq<u8>) -> Result<MessageView, DecodeError> {
    if opens_envelope(bytes) {
        match envelope_text(bytes) {
            Some(t) => decode_spec(t),
            None => Err(DecodeError::Unreadable),
        }
    } else if valid_utf8(bytes) {
        decode_spec(decode_utf8(bytes))
    } else {
        Err(DecodeError::Unreadable)
    }
}

/// Reads a message from received bytes, in either wire shape: a binary
/// envelope around the text, or the plain UTF-8 text.
pub fn decode_message(bytes: &[u8]) -> (r: Result<Message, DecodeError>)
    ensures
        r matches Ok(m) ==> decode_message_spec(bytes@) == Ok::<MessageView, DecodeError>(m@),
        r matches Err(e) ==> decode_message_spec(bytes@) == Err::<MessageView, DecodeError>(e),
{
    if bytes.len() > 0 && (0xa0 <= bytes[0] && bytes[0] <= 0xbf || 0xc4 <= bytes[0] && bytes[0]
        <= 0xc6 || 0xd9 <= bytes[0] && bytes[0] <= 0xdb) {
        match open_envelope(bytes) {
            Ok(text) => decode_text(text.as_str()),
            Err(_) => Err(DecodeError::Unreadable),
        }
    } else {
        match utf8_text(bytes) {
            Some(text) => decode_text(text.as_str()),
            None => Err(DecodeError::Unreadable),
        }
    }
}

/// Writes a message's text into a binary envelope; `None` exactly where the
/// text is too long for one.
pub fn encode_message(m: &Message) -> (r: Option<Vec<u8>>)
    ensures
        r is Some <==> encode_spec(m@).len() < MAX_ENVELOPE_CHARS,
        r matches Some(b) ==> b@ == envelope_bytes(encode_spec(m@)) && envelope_text(b@) == Some(
            encode_spec(m@),
        ),
{
    let text = encode_text(m);
    if text.as_str().unicode_len() >= MAX_ENVELOPE_CHARS {
        return None;
    }
    match seal_envelope(&text) {
        Ok(b) => Some(b),
        Err(_) => None,
    }
}

/// A well-formed message sealed in an envelope reads back as itself.
pub proof fn lemma_envelope_round_trip(m: MessageView, bytes: Seq<u8>)
    requires
        well_formed(m),
        envelope_text(bytes) == Some(encode_spec(m)),
        opens_envelope(bytes),
    ensures
        decode_message_spec(bytes) == Ok::<MessageView, DecodeError>(m),
{
    lemma_round_trip(m);
}

/// One entry point for both wire shapes: a text whose first character is
/// ASCII (as every message text's is) reads the same whether it arrives as
/// plain UTF-8 or inside an envelope.
pub proof fn lemma_wire_shapes_agree(s: Seq<char>, sealed: Seq<u8>)
    requires
        s.len() > 0,
        (s[0] as u32) < 0x80,
        envelope_text(sealed) == Some(s),
        opens_envelope(sealed),
    ensures
        decode_message_spec(encode_utf8(s)) == decode_spec(s),
        decode_message_spec(sealed) == decode_spec(s),
{
    broadcast use vstd::utf8::encode_utf8_valid_utf8, vstd::utf8::encode_utf8_decode_utf8;

    let c = s[0] as u32;
    let b = encode_utf8(s);
    assert(b[0] == (c & 0x7F) as u8);
    assert((c & 0x7F) as u8 <= 0x7F) by (bit_vector);
    assert(!opens_envelope(b));
}

} // verus!
