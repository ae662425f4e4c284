//! Byte buffers of the `bytes` crate, as far as the library fills and hands
//! them out. Nothing in this file is proved: each contract states what the
//! crate's source shows of the function that the body calls.

use bytes::{BufMut, Bytes, BytesMut};
use vstd::prelude::*;

verus! {

/// `bytes::BytesMut`, a growable buffer of bytes. Its inside is not seen.
#[verifier::external_type_specification]
#[verifier::external_body]
pub struct ExBytesMut(BytesMut);

/// `bytes::Bytes`, an immutable buffer of bytes. Its inside is not seen.
#[verifier::external_type_specification]
#[verifier::external_body]
pub struct ExBytes(Bytes);

/// The bytes that a `BytesMut` holds, from its first to its last.
pub uninterp spec fn buffer_bytes(buffer: BytesMut) -> Seq<u8>;

/// The bytes that a `Bytes` holds, from its first to its last.
pub uninterp spec fn frozen_bytes(bytes: Bytes) -> Seq<u8>;

/// A number as eight bytes, the most significant first.
pub open spec fn big_endian(number: u64) -> Seq<u8> {
    seq![
        ((number >> 56) & 0xff) as u8,
        ((number >> 48) & 0xff) as u8,
        ((number >> 40) & 0xff) as u8,
        ((number >> 32) & 0xff) as u8,
        ((number >> 24) & 0xff) as u8,
        ((number >> 16) & 0xff) as u8,
        ((number >> 8) & 0xff) as u8,
        (number & 0xff) as u8,
    ]
}

/// `bytes` cut or filled up with `value` to the length `length`.
pub open spec fn resized(bytes: Seq<u8>, length: nat, value: u8) -> Seq<u8> {
    if length <= bytes.len() {
        bytes.take(length as int)
    } else {
        bytes + Seq::new((length - bytes.len()) as nat, |i: int| value)
    }
}

/// `BytesMut::with_capacity`: a buffer that holds nothing. The capacity is
/// kept to what an allocation can have.
#[verifier::external_body]
pub(crate) fn buffer_with_capacity(capacity: usize) -> (buffer: BytesMut)
    requires
        capacity <= isize::MAX,
    ensures
        buffer_bytes(buffer) == Seq::<u8>::empty(),
{
    BytesMut::with_capacity(capacity)
}

/// `BufMut::put_u64` on a `BytesMut`: the number's eight bytes, the most
/// significant first, are appended. The buffer grows as needed, so the new
/// length is kept to what an allocation can have.
#[verifier::external_body]
pub(crate) fn buffer_put_u64(buffer: &mut BytesMut, number: u64)
    requires
        buffer_bytes(*old(buffer)).len() + 8 <= isize::MAX,
    ensures
        buffer_bytes(*final(buffer)) == buffer_bytes(*old(buffer)) + big_endian(number),
{
    buffer.put_u64(number)
}

/// `BytesMut::resize`: the buffer is cut to `length` bytes, or filled up to
/// it with `value`.
#[verifier::external_body]
pub(crate) fn buffer_resize(buffer: &mut BytesMut, length: usize, value: u8)
    requires
        length <= isize::MAX,
    ensures
        buffer_bytes(*final(buffer)) == resized(buffer_bytes(*old(buffer)), length as nat, value),
{
    buffer.resize(length, value)
}

/// `BytesMut::split`: everything that the buffer holds is handed out, and
/// the buffer holds nothing afterwards.
#[verifier::external_body]
pub(crate) fn buffer_split(buffer: &mut BytesMut) -> (front: BytesMut)
    ensures
        buffer_bytes(front) == buffer_bytes(*old(buffer)),
        buffer_bytes(*final(buffer)) == Seq::<u8>::empty(),
{
    buffer.split()
}

/// `BytesMut::freeze`: the same bytes, immutable.
#[verifier::external_body]
pub(crate) fn buffer_freeze(buffer: BytesMut) -> (bytes: Bytes)
    ensures
        frozen_bytes(bytes) == buffer_bytes(buffer),
{
    buffer.freeze()
}

/// `to_vec` on the slice that a `Bytes` dereferences to: a copy of its bytes.
#[verifier::external_body]
pub(crate) fn bytes_to_vec(bytes: &Bytes) -> (out: Vec<u8>)
    ensures
        out@ == frozen_bytes(*bytes),
{
    bytes.to_vec()
}

/// `Bytes::from` for a `Vec<u8>`: the bytes of the vector.
#[verifier::external_body]
pub(crate) fn bytes_from_vec(bytes: Vec<u8>) -> (out: Bytes)
    ensures
        frozen_bytes(out) == bytes@,
{
    Bytes::from(bytes)
}

} // verus!
