//! What holds of the format as a whole: decoding undoes encoding, an
//! envelope is told apart from whatever follows it, no proper prefix of an
//! envelope passes for a whole one, and the marker opens a connection once.

use crate::abridged::Abridged;
use crate::wire::{
    announced_words, envelope, envelope_len, envelopes, framable, header, header_len,
    is_canonical, is_complete, marker, packed, packed_all, payload_of, rest_of, LONG_FORM, MARKER,
};
use vstd::prelude::*;

verus! {

/// A header is one byte long for fewer than 127 words and four bytes long
/// otherwise, and for a word count of at most 24 bits it is read back as
/// that count, whatever follows it.
pub proof fn lemma_header_read_back(words: nat, tail: Seq<u8>)
    requires
        words < 0x100_0000,
    ensures
        header(words).len() == (if words < LONG_FORM { 1nat } else { 4nat }),
        header_len((header(words) + tail)[0]) == header(words).len(),
        announced_words(header(words) + tail) == words,
{
}

/// Decoding a stream that starts with the envelope of a payload gives back
/// that payload, consumes exactly the envelope, and leaves what follows it
/// untouched.
pub proof fn lemma_first_envelope(payload: Seq<u8>, following: Seq<u8>)
    requires
        framable(payload),
    ensures
        is_complete(envelope(payload) + following),
        envelope_len(envelope(payload) + following) == envelope(payload).len(),
        payload_of(envelope(payload) + following) == payload,
        rest_of(envelope(payload) + following) == following,
{
    let words = payload.len() / 4;
    let input = envelope(payload) + following;
    lemma_header_read_back(words, payload + following);
    assert(input =~= header(words) + (payload + following));
    assert(payload_of(input) =~= payload);
}

/// Round trip: the envelope of a payload decodes to that payload, and the
/// decoder consumes the whole envelope.
pub proof fn lemma_round_trip(payload: Seq<u8>)
    requires
        framable(payload),
    ensures
        is_complete(envelope(payload)),
        envelope_len(envelope(payload)) == envelope(payload).len(),
        payload_of(envelope(payload)) == payload,
{
    lemma_first_envelope(payload, Seq::empty());
    assert(envelope(payload) + Seq::<u8>::empty() =~= envelope(payload));
}

/// An envelope cut short anywhere, inside its header or inside its payload,
/// is never taken for a whole one.
pub proof fn lemma_cut_short(payload: Seq<u8>, kept: int)
    requires
        framable(payload),
        0 <= kept < envelope(payload).len(),
    ensures
        !is_complete(envelope(payload).take(kept)),
{
    let words = payload.len() / 4;
    let whole = envelope(payload);
    lemma_header_read_back(words, payload);
    if kept >= header(words).len() {
        assert(announced_words(whole.take(kept)) == announced_words(whole));
    }
}

/// Once an input holds a whole envelope, bytes that arrive after it change
/// neither what is decoded nor how much is consumed.
pub proof fn lemma_later_bytes_change_nothing(input: Seq<u8>, later: Seq<u8>)
    requires
        is_complete(input),
    ensures
        is_complete(input + later),
        envelope_len(input + later) == envelope_len(input),
        payload_of(input + later) == payload_of(input),
{
    assert(payload_of(input + later) =~= payload_of(input));
}

/// Encoding undoes decoding on canonical input: the envelope of the decoded
/// payload is, byte for byte, what the decoder consumed.
pub proof fn lemma_reencode(input: Seq<u8>)
    requires
        is_complete(input),
        is_canonical(input),
    ensures
        framable(payload_of(input)),
        envelope(payload_of(input)) == input.take(envelope_len(input) as int),
{
    assert(envelope(payload_of(input)) =~= input.take(envelope_len(input) as int));
}

/// However many payloads a codec packs, the marker goes out once if it had
/// not been sent before, at the very start, and not at all if it had; the
/// rest is the payloads' envelopes in order.
pub proof fn lemma_marker_once(payloads: Seq<Seq<u8>>)
    requires
        payloads.len() >= 1,
    ensures
        packed_all(false, payloads) == marker() + envelopes(payloads),
        packed_all(true, payloads) == envelopes(payloads),
    decreases payloads.len(),
{
    let later = payloads.drop_first();
    if later.len() >= 1 {
        lemma_marker_once(later);
    } else {
        assert(packed_all(true, later) =~= envelopes(later));
    }
    assert(packed_all(false, payloads) =~= marker() + envelopes(payloads));
}

/// A codec whose marker is yet to be sent, as after `new` or `reset`, opens
/// its next output with the marker byte, followed by the envelope.
pub proof fn lemma_marker_rearmed(codec: Abridged, payload: Seq<u8>)
    requires
        !codec.marker_sent(),
    ensures
        packed(codec.marker_sent(), payload) == marker() + envelope(payload),
        packed(codec.marker_sent(), payload)[0] == MARKER,
{
}

} // verus!
