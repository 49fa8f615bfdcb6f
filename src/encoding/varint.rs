//! A VarInt as a value of the serialization framework.
use crate::encoding::de::{DeError, Deserialize};
use crate::encoding::ser::Serialize;
use crate::varint::{
    lemma_varint_round_trip, read_varint, size, spec_read_varint, spec_varint, VarIntError,
};
use vstd::prelude::*;

verus! {

/// An `i32` that travels as a VarInt.
#[derive(Debug, Clone, Copy, PartialEq, Eq, Structural, PartialOrd, Ord)]
pub struct VarInt(pub i32);

impl DeepView for VarInt {
    type V = i32;

    open spec fn deep_view(&self) -> i32 {
        self.0
    }
}

impl Serialize for VarInt {
    open spec fn spec_serialize(&self) -> Seq<u8> {
        spec_varint(self.0)
    }

    fn serialize(&self, buf: &mut Vec<u8>) {
        crate::varint::write(buf, self.0);
    }

    fn size(&self) -> (r: usize) {
        size(self.0)
    }
}

impl<'de> Deserialize<'de> for VarInt {
    open spec fn spec_deserialize(s: Seq<u8>) -> Result<(i32, nat), DeError> {
        match spec_read_varint(s) {
            Ok((n, v)) => Ok((v, n as nat)),
            Err(VarIntError::Eof) => Err(DeError::Eof),
            Err(VarIntError::Big) => Err(DeError::InvalidData),
        }
    }

    fn deserialize(buf: &'de [u8]) -> (r: Result<(VarInt, usize), DeError>) {
        match read_varint(buf) {
            Ok((n, v)) => Ok((VarInt(v), n)),
            Err(e) => Err(DeError::from(e)),
        }
    }
}

/// Reading back the byte form of a VarInt gives it back and takes exactly
/// its bytes, whatever follows them.
pub proof fn lemma_varint_value_round_trip(v: VarInt, rest: Seq<u8>)
    ensures
        VarInt::spec_deserialize(v.spec_serialize() + rest) == Ok::<(i32, nat), DeError>(
            (v.0, v.spec_serialize().len()),
        ),
{
    lemma_varint_round_trip(v.0, rest);
}

} // verus!
