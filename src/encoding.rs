//! The serialization framework: what a value's bytes are, and reading
//! values back from bytes.
use crate::buffer::{bytes_from_vec, bytes_view};
use bytes::Bytes;
use vstd::prelude::*;

pub mod de;
pub mod ser;
pub mod varint;

use de::{DeError, Deserialize};
use ser::Serialize;

verus! {

/// Serializes `data` into a buffer allocated once, with room for exactly
/// [`Serialize::size`] bytes.
pub fn serialize_bytes<T: Serialize + ?Sized>(data: &T) -> (r: Bytes)
    requires
        data.spec_serialize().len() <= usize::MAX,
    ensures
        bytes_view(r) == data.spec_serialize(),
        bytes_view(r).len() == data.spec_serialize().len(),
{
    let prealloc = data.size();
    let mut buf: Vec<u8> = Vec::with_capacity(prealloc);
    data.serialize(&mut buf);
    assert(buf@ =~= data.spec_serialize());
    bytes_from_vec(buf)
}

/// Deserializes a `T` from the head of `buf`; bytes after it are ignored.
/// Borrowed types hand out views into `buf`.
pub fn deserialize_bytes<'de, T: Deserialize<'de>>(buf: &'de [u8]) -> (r: Result<T, DeError>)
    ensures
        match (r, T::spec_deserialize(buf@)) {
            (Ok(v), Ok((w, _))) => v.deep_view() == w,
            (Err(e), Err(f)) => e == f,
            _ => false,
        },
{
    match T::deserialize(buf) {
        Ok((v, _)) => Ok(v),
        Err(e) => Err(e),
    }
}

} // verus!
