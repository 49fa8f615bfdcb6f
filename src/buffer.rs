//! The byte buffers of the `bytes` crate, as the codec sees them: a
//! growable buffer that incoming bytes are appended to and frames are cut
//! from, and the shared, immutable payload of a frame.
use bytes::{Buf, Bytes, BytesMut};
use vstd::prelude::*;

verus! {

/// `bytes::BytesMut`, seen through `bytes_mut_view`.
#[verifier::external_type_specification]
#[verifier::external_body]
pub struct ExBytesMut(BytesMut);

/// `bytes::Bytes`, seen through `bytes_view`.
#[verifier::external_type_specification]
#[verifier::external_body]
pub struct ExBytes(Bytes);

/// The bytes that a `BytesMut` holds, in order.
pub uninterp spec fn bytes_mut_view(b: BytesMut) -> Seq<u8>;

/// The bytes that a `Bytes` holds, in order.
pub uninterp spec fn bytes_view(b: Bytes) -> Seq<u8>;

/// Relies on `<BytesMut as Deref>::deref`: a view of the bytes held, which
/// consumes nothing.
#[verifier::external_body]
pub(crate) fn peek(b: &BytesMut) -> (r: &[u8])
    ensures
        r@ == bytes_mut_view(*b),
{
    &b[..]
}

/// Relies on `<BytesMut as Buf>::advance`: drops the first `cnt` bytes
/// (it panics when `cnt` is past the end).
#[verifier::external_body]
pub(crate) fn advance(b: &mut BytesMut, cnt: usize)
    requires
        cnt <= bytes_mut_view(*old(b)).len(),
    ensures
        bytes_mut_view(*final(b)) == bytes_mut_view(*old(b)).skip(cnt as int),
{
    b.advance(cnt)
}

/// Relies on `<BytesMut as Buf>::copy_to_bytes`: splits off the first `len`
/// bytes as a shared `Bytes` (it panics when `len` is past the end).
#[verifier::external_body]
pub(crate) fn copy_to_bytes(b: &mut BytesMut, len: usize) -> (r: Bytes)
    requires
        len <= bytes_mut_view(*old(b)).len(),
    ensures
        bytes_view(r) == bytes_mut_view(*old(b)).take(len as int),
        bytes_mut_view(*final(b)) == bytes_mut_view(*old(b)).skip(len as int),
{
    b.copy_to_bytes(len)
}

/// Relies on `BytesMut::reserve`: asks for room for `additional` more bytes
/// and leaves the bytes held as they are. Like `Vec`'s growth, it fails only
/// when the capacity would overflow.
#[verifier::external_body]
pub(crate) fn reserve(b: &mut BytesMut, additional: usize)
    ensures
        bytes_mut_view(*final(b)) == bytes_mut_view(*old(b)),
{
    b.reserve(additional)
}

/// Relies on `BytesMut::extend_from_slice`: appends `s`.
#[verifier::external_body]
pub(crate) fn extend_from_slice(b: &mut BytesMut, s: &[u8])
    ensures
        bytes_mut_view(*final(b)) == bytes_mut_view(*old(b)) + s@,
{
    b.extend_from_slice(s)
}

/// Relies on `<Bytes as Deref>::deref`: a view of the bytes held.
#[verifier::external_body]
pub(crate) fn bytes_slice(b: &Bytes) -> (r: &[u8])
    ensures
        r@ == bytes_view(*b),
{
    &b[..]
}

/// Relies on `<Bytes as From<Vec<u8>>>::from`: takes over the vector's bytes.
#[verifier::external_body]
pub(crate) fn bytes_from_vec(v: Vec<u8>) -> (r: Bytes)
    ensures
        bytes_view(r) == v@,
{
    Bytes::from(v)
}

} // verus!
