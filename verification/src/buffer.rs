//! The byte buffers that packets travel in: `bytes::BytesMut` while a packet
//! is being written, `bytes::Bytes` once it is complete.

use bytes::{BufMut, Bytes, BytesMut};
use vstd::prelude::*;

verus! {

/// `bytes::Bytes`, a shared and immutable run of bytes.
#[verifier::external_type_specification]
#[verifier::external_body]
pub struct ExBytes(bytes::Bytes);

/// `bytes::BytesMut`, a growable run of bytes.
#[verifier::external_type_specification]
#[verifier::external_body]
pub struct ExBytesMut(bytes::BytesMut);

/// The bytes that a `Bytes` holds.
pub uninterp spec fn contents(b: Bytes) -> Seq<u8>;

/// The bytes that have been written to a `BytesMut`.
pub uninterp spec fn written(b: BytesMut) -> Seq<u8>;

/// The number of bytes that a `BytesMut` was made for.
pub uninterp spec fn room(b: BytesMut) -> nat;

/// `BytesMut::with_capacity`: an empty buffer with room for `capacity` bytes.
#[verifier::external_body]
pub(crate) fn with_capacity(capacity: usize) -> (b: BytesMut)
    requires
        capacity <= isize::MAX,
    ensures
        written(b) == Seq::<u8>::empty(),
        room(b) == capacity,
{
    BytesMut::with_capacity(capacity)
}

/// The two bytes of `n`, most significant first.
pub open spec fn be16(n: u16) -> Seq<u8> {
    seq![(n / 256) as u8, (n % 256) as u8]
}

/// The four bytes of `n`, most significant first.
pub open spec fn be32(n: u32) -> Seq<u8> {
    seq![
        (n / 16777216) as u8,
        ((n / 65536) % 256) as u8,
        ((n / 256) % 256) as u8,
        (n % 256) as u8,
    ]
}

/// `BufMut::put_u8` of `BytesMut`: one byte is written after what is there.
#[verifier::external_body]
pub(crate) fn put_u8(b: &mut BytesMut, n: u8)
    requires
        written(*old(b)).len() + 1 <= room(*old(b)),
    ensures
        written(*final(b)) == written(*old(b)).push(n),
        room(*final(b)) == room(*old(b)),
{
    b.put_u8(n)
}

/// `BufMut::put_u16` of `BytesMut`: two bytes are written after what is there,
/// most significant first.
#[verifier::external_body]
pub(crate) fn put_u16(b: &mut BytesMut, n: u16)
    requires
        written(*old(b)).len() + 2 <= room(*old(b)),
    ensures
        written(*final(b)) == written(*old(b)) + be16(n),
        room(*final(b)) == room(*old(b)),
{
    b.put_u16(n)
}

/// `BufMut::put_u32` of `BytesMut`: four bytes are written after what is there,
/// most significant first.
#[verifier::external_body]
pub(crate) fn put_u32(b: &mut BytesMut, n: u32)
    requires
        written(*old(b)).len() + 4 <= room(*old(b)),
    ensures
        written(*final(b)) == written(*old(b)) + be32(n),
        room(*final(b)) == room(*old(b)),
{
    b.put_u32(n)
}

/// `BufMut::put_slice` of `BytesMut`: the bytes of `src` are written, in order,
/// after what is there.
#[verifier::external_body]
pub(crate) fn put_slice(b: &mut BytesMut, src: &[u8])
    requires
        written(*old(b)).len() + src@.len() <= room(*old(b)),
    ensures
        written(*final(b)) == written(*old(b)) + src@,
        room(*final(b)) == room(*old(b)),
{
    b.put_slice(src)
}

/// `BytesMut::freeze`: the bytes that were written, as a `Bytes`.
#[verifier::external_body]
pub(crate) fn freeze(b: BytesMut) -> (r: Bytes)
    ensures
        contents(r) == written(b),
{
    b.freeze()
}

/// `Bytes::copy_from_slice`: a `Bytes` with a copy of the given bytes.
#[verifier::external_body]
pub(crate) fn copy_from_slice(data: &[u8]) -> (r: Bytes)
    ensures
        contents(r) == data@,
{
    Bytes::copy_from_slice(data)
}

/// `Bytes::len`: the number of bytes held.
#[verifier::external_body]
pub(crate) fn bytes_len(b: &Bytes) -> (r: usize)
    ensures
        r == contents(*b).len(),
{
    b.len()
}

/// `Bytes::clone`: another handle on the same bytes.
#[verifier::external_body]
pub(crate) fn share(b: &Bytes) -> (r: Bytes)
    ensures
        contents(r) == contents(*b),
{
    b.clone()
}

} // verus!
