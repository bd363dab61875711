//! The byte sinks that the codec appends to. Both are types of other
//! crates: what this module says of them is taken on trust, not proved.

use bytes::BufMut;
use bytes::BytesMut;
use grammers_crypto::RingBuffer;
use vstd::prelude::*;

verus! {

/// `grammers_crypto::RingBuffer`, the sink of `pack`. Opaque: its bytes are
/// spoken of through `ring_bytes`.
#[verifier::external_type_specification]
#[verifier::external_body]
#[verifier::reject_recursive_types(T)]
pub struct ExRingBuffer<T: Copy + Default>(RingBuffer<T>);

/// `bytes::BytesMut`, the sink of `unpack`. Opaque: its bytes are spoken of
/// through `sink_bytes`.
#[verifier::external_type_specification]
#[verifier::external_body]
pub struct ExBytesMut(BytesMut);

/// The bytes that a `RingBuffer<u8>` holds, front to back: what its
/// `as_ref()` and its indexing show.
pub uninterp spec fn ring_bytes(buffer: RingBuffer<u8>) -> Seq<u8>;

/// The bytes that a `BytesMut` holds, in order: what it dereferences to.
pub uninterp spec fn sink_bytes(buffer: BytesMut) -> Seq<u8>;

/// `RingBuffer::push`. Taken on trust: afterwards the buffer holds the bytes
/// it held before, followed by `byte`. The call forwards to `Vec::push`; as
/// there, running out of memory is outside of what is modelled.
#[verifier::external_body]
pub(crate) fn ring_push(buffer: &mut RingBuffer<u8>, byte: u8)
    ensures
        ring_bytes(*final(buffer)) == ring_bytes(*old(buffer)).push(byte),
{
    buffer.push(byte)
}

/// `RingBuffer::extend`, on a slice. Taken on trust: afterwards the buffer
/// holds the bytes it held before, followed by those of `bytes` in order.
/// The call forwards to `Vec::extend`; as there, running out of memory is
/// outside of what is modelled.
#[verifier::external_body]
pub(crate) fn ring_extend(buffer: &mut RingBuffer<u8>, bytes: &[u8])
    ensures
        ring_bytes(*final(buffer)) == ring_bytes(*old(buffer)) + bytes@,
{
    buffer.extend(bytes)
}

/// `BufMut::put` as `BytesMut` implements it, on a slice. Taken on trust:
/// afterwards the buffer holds the bytes it held before, followed by those
/// of `bytes` in order; it grows as needed, whatever its capacity was.
/// Running out of memory is outside of what is modelled.
#[verifier::external_body]
pub(crate) fn sink_put(buffer: &mut BytesMut, bytes: &[u8])
    ensures
        sink_bytes(*final(buffer)) == sink_bytes(*old(buffer)) + bytes@,
{
    buffer.put(bytes)
}

} // verus!
