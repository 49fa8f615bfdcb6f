//! A codec whose framing, uncompressed or compressed, is chosen once per
//! connection.
use crate::buffer::bytes_mut_view;
use crate::codec::compressed::{spec_decode_compressed, spec_encode_compressed, spec_inflates};
use crate::codec::{
    decoded_view, spec_decode, spec_encode, spec_frame_end, CodecError, CompressedCodec,
    UncompressedCodec,
};
use crate::encoding::ser::Serialize;
use crate::packet::{PacketId, RawPacket};
use crate::varint::spec_varint;
use bytes::BytesMut;
use vstd::prelude::*;

verus! {

/// Either framing behind one decode/encode interface.
pub enum SwitchCodec {
    /// Frames are not compressed.
    Uncompressed(UncompressedCodec),
    /// Frames use the compressed shape.
    Compressed(CompressedCodec),
}

impl From<UncompressedCodec> for SwitchCodec {
    fn from(value: UncompressedCodec) -> (r: SwitchCodec) {
        SwitchCodec::Uncompressed(value)
    }
}

impl vstd::std_specs::convert::FromSpecImpl<UncompressedCodec> for SwitchCodec {
    open spec fn obeys_from_spec() -> bool {
        true
    }

    open spec fn from_spec(value: UncompressedCodec) -> SwitchCodec {
        SwitchCodec::Uncompressed(value)
    }
}

impl From<CompressedCodec> for SwitchCodec {
    fn from(value: CompressedCodec) -> (r: SwitchCodec) {
        SwitchCodec::Compressed(value)
    }
}

impl vstd::std_specs::convert::FromSpecImpl<CompressedCodec> for SwitchCodec {
    open spec fn obeys_from_spec() -> bool {
        true
    }

    open spec fn from_spec(value: CompressedCodec) -> SwitchCodec {
        SwitchCodec::Compressed(value)
    }
}

impl SwitchCodec {
    /// The bound, exclusive, on the length of a decoded frame.
    pub open spec fn spec_max_size(&self) -> usize {
        match self {
            SwitchCodec::Uncompressed(c) => c.spec_max_size(),
            SwitchCodec::Compressed(c) => c.spec_max_size(),
        }
    }

    /// Sets the bound on the length of a decoded frame, keeping the framing.
    pub fn max_size(self, max_size: usize) -> (r: Self)
        ensures
            r.spec_max_size() == max_size,
            r is Compressed <==> self is Compressed,
            self matches SwitchCodec::Compressed(c) ==> (r matches SwitchCodec::Compressed(d)
                && d.spec_threshold() == c.spec_threshold()),
    {
        match self {
            SwitchCodec::Uncompressed(codec) => SwitchCodec::Uncompressed(codec.max_size(max_size)),
            SwitchCodec::Compressed(codec) => SwitchCodec::Compressed(codec.max_size(max_size)),
        }
    }

    /// The bound on the length of a decoded frame.
    pub fn get_max_size(&self) -> (r: usize)
        ensures
            r == self.spec_max_size(),
    {
        match self {
            SwitchCodec::Uncompressed(codec) => codec.get_max_size(),
            SwitchCodec::Compressed(codec) => codec.get_max_size(),
        }
    }

    /// Decodes one frame from the head of `src` in the chosen framing.
    pub fn decode(&mut self, src: &mut BytesMut) -> (r: Result<Option<RawPacket>, CodecError>)
        ensures
            final(self).spec_max_size() == old(self).spec_max_size(),
            (*final(self)) is Compressed <==> (*old(self)) is Compressed,
            (*old(self)) is Uncompressed ==> decoded_view(r) == spec_decode(
                old(self).spec_max_size(),
                bytes_mut_view(*old(src)),
            ),
            (*old(self)) is Compressed && !(r matches Err(CodecError::Io(_))) ==> decoded_view(r)
                == spec_decode_compressed(old(self).spec_max_size(), bytes_mut_view(*old(src))),
            (*old(self)) is Compressed && (r matches Err(CodecError::Io(_))) ==> spec_inflates(
                old(self).spec_max_size(),
                bytes_mut_view(*old(src)),
            ),
            r matches Ok(Some(_)) ==> bytes_mut_view(*final(src)) == bytes_mut_view(*old(src)).skip(
                spec_frame_end(old(self).spec_max_size(), bytes_mut_view(*old(src))),
            ),
            !(r matches Ok(Some(_))) ==> bytes_mut_view(*final(src)) == bytes_mut_view(*old(src)),
    {
        match self {
            SwitchCodec::Uncompressed(codec) => codec.decode(src),
            SwitchCodec::Compressed(codec) => codec.decode(src),
        }
    }

    /// Encodes `item` at the end of `dst` in the chosen framing; on an
    /// error `dst` is left as it was.
    pub fn encode(&mut self, item: &RawPacket, dst: &mut BytesMut) -> (r: Result<(), CodecError>)
        ensures
            final(self).spec_max_size() == old(self).spec_max_size(),
            (*final(self)) is Compressed <==> (*old(self)) is Compressed,
            (*old(self)) is Uncompressed ==> (r is Ok <==> spec_encode(
                old(self).spec_max_size(),
                item@.0,
                item@.1,
            ) is Ok),
            (*old(self)) is Uncompressed && r is Ok ==> bytes_mut_view(*final(dst)) == bytes_mut_view(
                *old(dst),
            ) + spec_encode(old(self).spec_max_size(), item@.0, item@.1)->Ok_0,
            (*old(self)) is Uncompressed ==> (r matches Err(e) ==> spec_encode(
                old(self).spec_max_size(),
                item@.0,
                item@.1,
            ) == Err::<Seq<u8>, CodecError>(e)),
            (*old(self)) matches SwitchCodec::Compressed(c) ==> (!(r matches Err(CodecError::Io(_)))
                ==> (r is Ok <==> spec_encode_compressed(
                c.spec_threshold(),
                spec_varint(item@.0) + item@.1,
            ) is Ok)),
            (*old(self)) matches SwitchCodec::Compressed(c) ==> (r matches Err(e) ==> e is Io
                || spec_encode_compressed(c.spec_threshold(), spec_varint(item@.0) + item@.1)
                == Err::<Seq<u8>, CodecError>(e)),
            (*old(self)) matches SwitchCodec::Compressed(c) ==> ((r matches Err(CodecError::Io(_)))
                ==> c.spec_threshold() <= spec_varint(item@.0).len() + item@.1.len() <= i32::MAX),
            (*old(self)) matches SwitchCodec::Compressed(c) ==> (r is Ok ==> bytes_mut_view(
                *final(dst),
            ) == bytes_mut_view(*old(dst)) + spec_encode_compressed(
                c.spec_threshold(),
                spec_varint(item@.0) + item@.1,
            )->Ok_0),
            r is Err ==> bytes_mut_view(*final(dst)) == bytes_mut_view(*old(dst)),
    {
        match self {
            SwitchCodec::Uncompressed(codec) => codec.encode(item, dst),
            SwitchCodec::Compressed(codec) => codec.encode(item, dst),
        }
    }

    /// Encodes the typed packet `data`, with its type's identifier, in the
    /// chosen framing; on an error `dst` is left as it was.
    pub fn encode_packet<T: Serialize + PacketId>(&mut self, data: &T, dst: &mut BytesMut) -> (r:
        Result<(), CodecError>)
        ensures
            final(self).spec_max_size() == old(self).spec_max_size(),
            (*final(self)) is Compressed <==> (*old(self)) is Compressed,
            (*old(self)) is Uncompressed ==> (r is Ok <==> spec_encode(
                old(self).spec_max_size(),
                T::ID,
                data.spec_serialize(),
            ) is Ok),
            (*old(self)) is Uncompressed && r is Ok ==> bytes_mut_view(*final(dst)) == bytes_mut_view(
                *old(dst),
            ) + spec_encode(old(self).spec_max_size(), T::ID, data.spec_serialize())->Ok_0,
            (*old(self)) is Uncompressed ==> (r matches Err(e) ==> spec_encode(
                old(self).spec_max_size(),
                T::ID,
                data.spec_serialize(),
            ) == Err::<Seq<u8>, CodecError>(e)),
            (*old(self)) matches SwitchCodec::Compressed(c) ==> (!(r matches Err(CodecError::Io(_)))
                ==> (r is Ok <==> spec_encode_compressed(
                c.spec_threshold(),
                spec_varint(T::ID) + data.spec_serialize(),
            ) is Ok)),
            (*old(self)) matches SwitchCodec::Compressed(c) ==> (r matches Err(e) ==> e is Io
                || spec_encode_compressed(c.spec_threshold(), spec_varint(T::ID) + data.spec_serialize())
                == Err::<Seq<u8>, CodecError>(e)),
            (*old(self)) matches SwitchCodec::Compressed(c) ==> ((r matches Err(CodecError::Io(_)))
                ==> c.spec_threshold() <= spec_varint(T::ID).len() + data.spec_serialize().len() <= i32::MAX),
            (*old(self)) matches SwitchCodec::Compressed(c) ==> (r is Ok ==> bytes_mut_view(
                *final(dst),
            ) == bytes_mut_view(*old(dst)) + spec_encode_compressed(
                c.spec_threshold(),
                spec_varint(T::ID) + data.spec_serialize(),
            )->Ok_0),
            r is Err ==> bytes_mut_view(*final(dst)) == bytes_mut_view(*old(dst)),
    {
        match self {
            SwitchCodec::Uncompressed(codec) => codec.encode_packet(data, dst),
            SwitchCodec::Compressed(codec) => codec.encode_packet(data, dst),
        }
    }
}

} // verus!
