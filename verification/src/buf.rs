//! The growable byte buffer of the `bytes` crate, seen through the sequence
//! of bytes it holds.
//!
//! `BytesMut` is opaque to the verifier, so every method the library calls is
//! declared here with a contract over `buf_view`, the bytes the buffer holds
//! in order. The crate caps every allocation at `isize::MAX` bytes, and its
//! appending methods panic beyond that; each contract keeps callers inside
//! that bound.

use vstd::prelude::*;

use bytes::BufMut;
use bytes::BytesMut;

use crate::frame::be_bytes;

verus! {

#[verifier::external_type_specification]
#[verifier::external_body]
pub struct ExBytesMut(BytesMut);

/// The bytes a `BytesMut` holds, in order.
pub uninterp spec fn buf_view(b: BytesMut) -> Seq<u8>;

/// Relies on BytesMut::new: a buffer holding no bytes.
#[verifier::external_body]
pub(crate) fn buf_new() -> (r: BytesMut)
    ensures
        buf_view(r) == Seq::<u8>::empty(),
{
    BytesMut::new()
}

/// Relies on BytesMut::with_capacity: a buffer holding no bytes; what it has
/// allocated is not modelled.
#[verifier::external_body]
pub(crate) fn buf_with_capacity(capacity: usize) -> (r: BytesMut)
    ensures
        buf_view(r) == Seq::<u8>::empty(),
{
    BytesMut::with_capacity(capacity)
}

/// Relies on BytesMut::len: how many bytes the buffer holds.
#[verifier::external_body]
pub(crate) fn buf_len(b: &BytesMut) -> (r: usize)
    ensures
        r == buf_view(*b).len(),
{
    b.len()
}

/// Relies on BufMut::remaining_mut for BytesMut: the crate's allocation
/// ceiling of `isize::MAX` bytes, less what the buffer already holds.
#[verifier::external_body]
pub(crate) fn buf_remaining_mut(b: &BytesMut) -> (r: usize)
    ensures
        r == isize::MAX as usize - buf_view(*b).len(),
{
    b.remaining_mut()
}

/// Relies on BufMut::put_u8 for BytesMut: appends one byte.
#[verifier::external_body]
pub(crate) fn buf_put_u8(b: &mut BytesMut, value: u8)
    requires
        buf_view(*old(b)).len() + 1 <= isize::MAX as usize,
    ensures
        buf_view(*final(b)) == buf_view(*old(b)).push(value),
{
    b.put_u8(value);
}

/// Relies on BufMut::put_u16 for BytesMut: appends the two big-endian bytes
/// of the value.
#[verifier::external_body]
pub(crate) fn buf_put_u16(b: &mut BytesMut, value: u16)
    requires
        buf_view(*old(b)).len() + 2 <= isize::MAX as usize,
    ensures
        buf_view(*final(b)) == buf_view(*old(b)) + be_bytes(value as nat, 2),
{
    b.put_u16(value);
}

/// Relies on BufMut::put_u64 for BytesMut: appends the eight big-endian
/// bytes of the value.
#[verifier::external_body]
pub(crate) fn buf_put_u64(b: &mut BytesMut, value: u64)
    requires
        buf_view(*old(b)).len() + 8 <= isize::MAX as usize,
    ensures
        buf_view(*final(b)) == buf_view(*old(b)) + be_bytes(value as nat, 8),
{
    b.put_u64(value);
}

/// Relies on BufMut::put for BytesMut with a byte slice: appends the slice.
#[verifier::external_body]
pub(crate) fn buf_put_slice(b: &mut BytesMut, src: &[u8])
    requires
        buf_view(*old(b)).len() + src@.len() <= isize::MAX as usize,
    ensures
        buf_view(*final(b)) == buf_view(*old(b)) + src@,
{
    b.put(src);
}

/// Relies on BytesMut::reserve: grows the capacity, keeps the contents.
#[verifier::external_body]
pub(crate) fn buf_reserve(b: &mut BytesMut, additional: usize)
    requires
        additional <= isize::MAX as usize,
    ensures
        buf_view(*final(b)) == buf_view(*old(b)),
{
    b.reserve(additional);
}

/// Relies on AsRef<[u8]> for BytesMut: the bytes the buffer holds.
#[verifier::external_body]
pub(crate) fn buf_as_slice(b: &BytesMut) -> (r: &[u8])
    ensures
        r@ == buf_view(*b),
{
    b.as_ref()
}

/// Relies on From<&[u8]> for BytesMut: a buffer holding a copy of the slice.
#[verifier::external_body]
pub(crate) fn buf_from_slice(src: &[u8]) -> (r: BytesMut)
    ensures
        buf_view(r) == src@,
{
    BytesMut::from(src)
}

} // verus!
