//! The abridged wire format, as mathematics on byte sequences.
//!
//! An envelope is a header followed by the payload. The header gives the
//! payload's length in 4-byte words: in one byte when that count is below
//! 127, otherwise as the byte `0x7f` followed by the count's three low-order
//! bytes, least significant first.

use vstd::prelude::*;

verus! {

/// Number of bytes in a word.
pub const WORD: usize = 4;

/// The byte that opens a connection, sent once before the first envelope.
pub const MARKER: u8 = 0xef;

/// First header byte of the long form; word counts below it use the short form.
pub const LONG_FORM: u8 = 0x7f;

/// The connection marker as a byte sequence.
pub open spec fn marker() -> Seq<u8> {
    seq![MARKER]
}

/// The header announcing a payload of `words` words. Counts that need more
/// than 24 bits keep their three low-order bytes only.
pub open spec fn header(words: nat) -> Seq<u8> {
    if words < LONG_FORM {
        seq![words as u8]
    } else {
        seq![
            LONG_FORM,
            (words % 256) as u8,
            (words / 256 % 256) as u8,
            (words / 65536 % 256) as u8,
        ]
    }
}

/// The envelope that carries `payload`.
pub open spec fn envelope(payload: Seq<u8>) -> Seq<u8> {
    header(payload.len() / 4) + payload
}

/// Whether a payload can be framed without loss: whole words, and a word
/// count that fits the long header.
pub open spec fn framable(payload: Seq<u8>) -> bool {
    payload.len() % 4 == 0 && payload.len() / 4 < 0x100_0000
}

/// Length of the header that starts with byte `first`.
pub open spec fn header_len(first: u8) -> nat {
    if first < LONG_FORM {
        1
    } else {
        4
    }
}

/// Whether `input` holds the whole header of its first envelope.
pub open spec fn has_header(input: Seq<u8>) -> bool {
    input.len() >= 1 && input.len() >= header_len(input[0])
}

/// The word count announced by the header at the start of `input`.
pub open spec fn announced_words(input: Seq<u8>) -> nat
    recommends
        has_header(input),
{
    if input[0] < LONG_FORM {
        input[0] as nat
    } else {
        (input[1] + 256 * input[2] + 65536 * input[3]) as nat
    }
}

/// Total length, header included, of the envelope at the start of `input`.
pub open spec fn envelope_len(input: Seq<u8>) -> nat
    recommends
        has_header(input),
{
    header_len(input[0]) + 4 * announced_words(input)
}

/// Whether `input` holds all of its first envelope.
pub open spec fn is_complete(input: Seq<u8>) -> bool {
    has_header(input) && input.len() >= envelope_len(input)
}

/// The payload of the envelope at the start of `input`.
pub open spec fn payload_of(input: Seq<u8>) -> Seq<u8>
    recommends
        is_complete(input),
{
    input.subrange(header_len(input[0]) as int, envelope_len(input) as int)
}

/// What follows the first envelope of `input`.
pub open spec fn rest_of(input: Seq<u8>) -> Seq<u8>
    recommends
        is_complete(input),
{
    input.skip(envelope_len(input) as int)
}

/// Whether the header at the start of `input` is the one that encoding
/// would choose for its word count: the short form wherever it fits, and
/// `0x7f` as the first byte of the long form.
pub open spec fn is_canonical(input: Seq<u8>) -> bool
    recommends
        has_header(input),
{
    input[0] < LONG_FORM || (input[0] == LONG_FORM && announced_words(input) >= LONG_FORM)
}

/// The bytes that one `pack` puts on the wire: the marker if it has not been
/// sent on this connection yet, then the envelope.
pub open spec fn packed(marker_sent: bool, payload: Seq<u8>) -> Seq<u8> {
    if marker_sent {
        envelope(payload)
    } else {
        marker() + envelope(payload)
    }
}

/// The envelopes of `payloads`, one after the other.
pub open spec fn envelopes(payloads: Seq<Seq<u8>>) -> Seq<u8>
    decreases payloads.len(),
{
    if payloads.len() == 0 {
        Seq::empty()
    } else {
        envelope(payloads[0]) + envelopes(payloads.drop_first())
    }
}

/// The bytes that packing `payloads` in order puts on the wire, starting
/// from a codec whose marker flag is `marker_sent`.
pub open spec fn packed_all(marker_sent: bool, payloads: Seq<Seq<u8>>) -> Seq<u8>
    decreases payloads.len(),
{
    if payloads.len() == 0 {
        Seq::empty()
    } else {
        packed(marker_sent, payloads[0]) + packed_all(true, payloads.drop_first())
    }
}

} // verus!
