//! The codec: frames payloads for the wire and finds them again in a byte
//! stream.

use crate::buffers::{ring_bytes, ring_extend, ring_push, sink_bytes, sink_put};
use crate::wire::{envelope_len, is_complete, packed, payload_of, LONG_FORM, MARKER, WORD};
use bytes::BytesMut;
use grammers_crypto::RingBuffer;
use vstd::prelude::*;
use vstd::slice::slice_subrange;

verus! {

/// Why `unpack` could not decode an envelope.
#[derive(Clone, Copy, Debug, PartialEq, Eq)]
pub enum Error {
    /// The input ends before its first envelope does. Nothing was consumed:
    /// the same bytes are to be offered again once more have arrived.
    MissingBytes,
}

/// The lightest of the transports: one byte of overhead for payloads below
/// 127 words, four bytes otherwise, and a single marker byte at the start of
/// the connection.
///
/// ```text
/// +-+----...----+        +----+----...----+
/// |L|  payload  |        | len|  payload  |
/// +-+----...----+        +----+----...----+
///  ^ 1 byte               ^^^^ 4 bytes
/// ```
pub struct Abridged {
    init: bool,
}

impl Abridged {
    /// Whether the connection marker has been sent since the codec was made
    /// or last reset.
    pub closed spec fn marker_sent(&self) -> bool {
        self.init
    }

    /// A codec for a fresh connection: the marker is still to be sent.
    pub fn new() -> (codec: Self)
        ensures
            !codec.marker_sent(),
    {
        Self { init: false }
    }

    /// Appends to `output` the wire form of `input`: the connection marker,
    /// if this is the first payload of the connection, then the envelope.
    ///
    /// The payload must be a whole number of words. Word counts that do not
    /// fit in 24 bits are framed with the count's three low-order bytes.
    pub fn pack(&mut self, input: &[u8], output: &mut RingBuffer<u8>)
        requires
            input@.len() % 4 == 0,
        ensures
            final(self).marker_sent(),
            ring_bytes(*final(output))
                == ring_bytes(*old(output)) + packed(old(self).marker_sent(), input@),
    {
        let ghost before = ring_bytes(*output);
        if !self.init {
            ring_push(output, MARKER);
            self.init = true;
        }
        let len: usize = input.len() / WORD;
        if len < LONG_FORM as usize {
            ring_push(output, len as u8);
            ring_extend(output, input);
        } else {
            ring_push(output, LONG_FORM);
            let low: [u8; 3] = [
                (len % 256) as u8,
                (len / 256 % 256) as u8,
                (len / 65536 % 256) as u8,
            ];
            ring_extend(output, low.as_slice());
            ring_extend(output, input);
        }
        assert(ring_bytes(*output) =~= before + packed(old(self).marker_sent(), input@));
    }

    /// Decodes the first envelope of `input`, if all of it is there: its
    /// payload is appended to `output` and the number of input bytes that
    /// the envelope took, header included, is returned. What follows it in
    /// `input` is left for the next call.
    ///
    /// If `input` ends before the envelope does, nothing is consumed or
    /// written. The codec's own state plays no part and stays as it is.
    pub fn unpack(&mut self, input: &[u8], output: &mut BytesMut) -> (consumed: Result<usize, Error>)
        ensures
            *final(self) == *old(self),
            is_complete(input@) ==> {
                &&& consumed == Ok::<usize, Error>(envelope_len(input@) as usize)
                &&& sink_bytes(*final(output)) == sink_bytes(*old(output)) + payload_of(input@)
            },
            !is_complete(input@) ==> {
                &&& consumed == Err::<usize, Error>(Error::MissingBytes)
                &&& *final(output) == *old(output)
            },
    {
        if input.len() == 0 {
            return Err(Error::MissingBytes);
        }
        let first: u8 = input[0];
        let header_len: usize;
        let words: usize;
        if first < LONG_FORM {
            header_len = 1;
            words = first as usize;
        } else {
            if input.len() < 4 {
                return Err(Error::MissingBytes);
            }
            header_len = 4;
            words = input[1] as usize + 256 * (input[2] as usize) + 65536 * (input[3] as usize);
        }
        let len: usize = words * WORD;
        if input.len() < header_len + len {
            return Err(Error::MissingBytes);
        }
        sink_put(output, slice_subrange(input, header_len, header_len + len));
        Ok(header_len + len)
    }

    /// Starts a new connection: the next `pack` sends the marker again.
    pub fn reset(&mut self)
        ensures
            !final(self).marker_sent(),
    {
        self.init = false;
    }
}

} // verus!
