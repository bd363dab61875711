use abridged::{Abridged, Error};
use bytes::BytesMut;
use grammers_crypto::RingBuffer;

/// Returns a new abridged transport, `n` bytes of input data for it, and an empty output buffer.
fn setup_pack(n: u32) -> (Abridged, Vec<u8>, RingBuffer<u8>) {
    let input = (0..n).map(|x| (x & 0xff) as u8).collect();
    (Abridged::new(), input, RingBuffer::with_capacity(0, 0))
}

#[test]
fn pack_empty() {
    let (mut transport, input, mut output) = setup_pack(0);
    transport.pack(&input, &mut output);
    assert_eq!(&output[..], &[0xef, 0]);
}

#[test]
fn pack_normal() {
    let (mut transport, input, mut output) = setup_pack(128);
    transport.pack(&input, &mut output);
    assert_eq!(&output[..2], &[0xef, 32]);
    assert_eq!(&output[2..output.len()], &input[..]);
}

#[test]
fn pack_large() {
    let (mut transport, input, mut output) = setup_pack(1024);
    transport.pack(&input, &mut output);
    assert_eq!(&output[..5], &[0xef, 127, 0, 1, 0]);
    assert_eq!(&output[5..], &input[..]);
}

#[test]
fn unpack_small() {
    let mut transport = Abridged::new();
    let input = [1];
    let mut output = BytesMut::new();
    assert_eq!(
        transport.unpack(&input, &mut output),
        Err(Error::MissingBytes)
    );
}

#[test]
fn unpack_normal() {
    let (mut transport, input, mut packed) = setup_pack(128);
    let mut unpacked = BytesMut::new();
    transport.pack(&input, &mut packed);
    transport.unpack(&packed[1..], &mut unpacked).unwrap();
    assert_eq!(input, unpacked);
}

#[test]
fn unpack_two_at_once() {
    let (mut transport, input, mut packed) = setup_pack(128);
    let mut unpacked = BytesMut::new();
    transport.pack(&input, &mut packed);
    let two_input = packed
        .as_ref()
        .iter()
        .copied()
        .skip(1)
        .chain(packed.as_ref().iter().copied().skip(1))
        .collect::<Vec<_>>();
    let n = transport.unpack(&two_input, &mut unpacked).unwrap();
    assert_eq!(input, unpacked);
    assert_eq!(n, packed.len() - 1);
}

#[test]
fn unpack_large() {
    let (mut transport, input, mut packed) = setup_pack(1024);
    let mut unpacked = BytesMut::new();
    transport.pack(&input, &mut packed);
    transport.unpack(&packed[1..], &mut unpacked).unwrap();
    assert_eq!(input, unpacked);
}
