//! Frame decoders and encoders. A frame is
//! `VarInt total_length | VarInt packet_id | payload`, where the length counts
//! the packet identifier's bytes and the payload.
use crate::buffer::{
    advance, bytes_mut_view, bytes_slice, bytes_view, copy_to_bytes, extend_from_slice, peek,
    reserve,
};
use crate::encoding::ser::Serialize;
use crate::packet::{PacketId, RawPacket};
use crate::varint::{
    lemma_read_bounds, lemma_read_prefix, lemma_varint_round_trip, read_varint, size,
    spec_read_varint, spec_varint, VarIntError,
};
use bytes::BytesMut;
use vstd::prelude::*;

pub mod compressed;
pub mod dual;

pub use compressed::CompressedCodec;
pub use dual::SwitchCodec;

verus! {

/// `std::io::Error`, carried through as an opaque value.
#[verifier::external_type_specification]
#[verifier::external_body]
pub struct ExIoError(std::io::Error);

/// Error raised by a codec.
#[derive(Debug)]
pub enum CodecError {
    /// The underlying I/O, or the compression stream, failed.
    Io(std::io::Error),
    /// A VarInt of the frame could not be read.
    Varint(VarIntError),
    /// A length is zero, negative, too large, or inconsistent.
    Size,
}

impl From<std::io::Error> for CodecError {
    fn from(e: std::io::Error) -> (r: CodecError) {
        CodecError::Io(e)
    }
}

impl vstd::std_specs::convert::FromSpecImpl<std::io::Error> for CodecError {
    open spec fn obeys_from_spec() -> bool {
        true
    }

    open spec fn from_spec(e: std::io::Error) -> CodecError {
        CodecError::Io(e)
    }
}

impl From<VarIntError> for CodecError {
    fn from(e: VarIntError) -> (r: CodecError) {
        CodecError::Varint(e)
    }
}

impl vstd::std_specs::convert::FromSpecImpl<VarIntError> for CodecError {
    open spec fn obeys_from_spec() -> bool {
        true
    }

    open spec fn from_spec(e: VarIntError) -> CodecError {
        CodecError::Varint(e)
    }
}

/// Where the frame at the head of `s` lies: `Ok(None)` while more bytes are
/// needed, else the size of the length prefix and the declared length.
pub open spec fn spec_frame_extent(max_size: usize, s: Seq<u8>) -> Result<
    Option<(usize, usize)>,
    CodecError,
> {
    match spec_read_varint(s) {
        Err(VarIntError::Eof) => Ok(None),
        Err(e) => Err(CodecError::Varint(e)),
        Ok((prefix, len)) => if len < 1 || len >= max_size {
            Err(CodecError::Size)
        } else if s.len() - prefix < len {
            Ok(None)
        } else {
            Ok(Some((prefix, len as usize)))
        },
    }
}

/// Bytes that a complete frame at the head of `s` takes up.
pub open spec fn spec_frame_end(max_size: usize, s: Seq<u8>) -> int {
    let (prefix, len) = spec_frame_extent(max_size, s)->Ok_0->Some_0;
    prefix + len
}

/// What decoding `s` gives: `Ok(None)` while more bytes are needed, else the
/// packet identifier and payload of the frame at its head. The identifier is
/// read from all the bytes after the length prefix, so it may run past the
/// declared length, which is then a `Size` error.
pub open spec fn spec_decode(max_size: usize, s: Seq<u8>) -> Result<
    Option<(i32, Seq<u8>)>,
    CodecError,
> {
    match spec_frame_extent(max_size, s) {
        Err(e) => Err(e),
        Ok(None) => Ok(None),
        Ok(Some((prefix, len))) => match spec_read_varint(s.skip(prefix as int)) {
            Err(e) => Err(CodecError::Varint(e)),
            Ok((id_len, id)) => if id_len > len {
                Err(CodecError::Size)
            } else {
                Ok(Some((id, s.subrange(prefix + id_len, prefix + len))))
            },
        },
    }
}

/// The view of a decoder's result.
pub open spec fn decoded_view(r: Result<Option<RawPacket>, CodecError>) -> Result<
    Option<(i32, Seq<u8>)>,
    CodecError,
> {
    match r {
        Ok(Some(p)) => Ok(Some(p@)),
        Ok(None) => Ok(None),
        Err(e) => Err(e),
    }
}

/// The bytes of a frame with packet identifier `id` and `payload`, or `Size`
/// when its length exceeds `max_size` or does not fit a VarInt.
pub open spec fn spec_encode(max_size: usize, id: i32, payload: Seq<u8>) -> Result<
    Seq<u8>,
    CodecError,
> {
    let total = spec_varint(id).len() + payload.len();
    if total > max_size || total > i32::MAX {
        Err(CodecError::Size)
    } else {
        Ok(spec_varint(total as i32) + spec_varint(id) + payload)
    }
}

/// Decoding is indifferent to how the bytes arrive: while a frame is not
/// whole the decoder asks for more, and once it is whole the decoder returns
/// the same frame, and takes the same bytes, whatever follows it.
pub proof fn lemma_fragmentation(max_size: usize, s: Seq<u8>, k: int, t: Seq<u8>)
    requires
        spec_decode(max_size, s) matches Ok(Some(_)),
    ensures
        0 <= k < spec_frame_end(max_size, s) ==> spec_decode(max_size, s.take(k)) == Ok::<
            Option<(i32, Seq<u8>)>,
            CodecError,
        >(None),
        spec_decode(max_size, s.take(spec_frame_end(max_size, s)) + t) == spec_decode(max_size, s),
        spec_frame_end(max_size, s.take(spec_frame_end(max_size, s)) + t) == spec_frame_end(
            max_size,
            s,
        ),
{
    let (prefix, len) = spec_frame_extent(max_size, s)->Ok_0->Some_0;
    let end = prefix + len;
    lemma_read_bounds(s);
    if 0 <= k < end {
        let p = s.take(k);
        if k < prefix {
            lemma_read_prefix(s, k as nat, Seq::empty());
        } else {
            lemma_read_prefix(s, 0, p.skip(prefix as int));
            assert(s.take(prefix as int) + p.skip(prefix as int) =~= p);
        }
    }
    let u = s.take(end) + t;
    lemma_read_prefix(s, 0, u.skip(prefix as int));
    assert(s.take(prefix as int) + u.skip(prefix as int) =~= u);
    let body = s.skip(prefix as int);
    lemma_read_bounds(body);
    let id_len = spec_read_varint(body)->Ok_0.0;
    let w = u.skip(prefix as int).skip(id_len as int);
    lemma_read_prefix(body, 0, w);
    assert(body.take(id_len as int) + w =~= u.skip(prefix as int));
    assert(u.subrange(prefix + id_len, end) =~= s.subrange(prefix + id_len, end));
}

/// Decoding what the encoder wrote gives back the frame, whatever follows
/// it, when its length is below the decoder's bound.
pub proof fn lemma_encode_decode(max_size: usize, id: i32, payload: Seq<u8>, rest: Seq<u8>)
    requires
        spec_encode(max_size, id, payload) is Ok,
        spec_varint(id).len() + payload.len() < max_size,
    ensures
        spec_decode(max_size, spec_encode(max_size, id, payload)->Ok_0 + rest) == Ok::<
            Option<(i32, Seq<u8>)>,
            CodecError,
        >(Some((id, payload))),
        spec_frame_end(max_size, spec_encode(max_size, id, payload)->Ok_0 + rest) == spec_encode(
            max_size,
            id,
            payload,
        )->Ok_0.len(),
{
    let total = spec_varint(id).len() + payload.len();
    let head = spec_varint(total as i32);
    let body = spec_varint(id) + payload;
    let s = spec_encode(max_size, id, payload)->Ok_0 + rest;
    assert(s =~= head + (body + rest));
    lemma_varint_round_trip(total as i32, body + rest);
    lemma_varint_round_trip(id, payload + rest);
    assert(s.skip(head.len() as int) =~= spec_varint(id) + (payload + rest));
    lemma_varint_round_trip(id, Seq::empty());
    assert(s.subrange(head.len() + spec_varint(id).len() as int, head.len() + total as int) =~= payload);
}

/// Finds the frame at the head of `buf`, which is not consumed.
pub fn frame_extent(max_size: usize, buf: &[u8]) -> (r: Result<Option<(usize, usize)>, CodecError>)
    ensures
        r == spec_frame_extent(max_size, buf@),
        r matches Ok(Some((prefix, len))) ==> 1 <= prefix && 1 <= len && prefix + len <= buf@.len(),
{
    let (prefix, len) = match read_varint(buf) {
        Err(VarIntError::Eof) => return Ok(None),
        Err(e) => return Err(CodecError::Varint(e)),
        Ok(r) => r,
    };
    if len < 1 || len as usize >= max_size {
        return Err(CodecError::Size);
    }
    let len = len as usize;
    if buf.len() - prefix < len {
        return Ok(None);
    }
    Ok(Some((prefix, len)))
}

/// Finds the frame at the head of `src`, whose bytes stay where they are.
/// While bytes are missing, room for them is reserved.
pub fn locate_frame(max_size: usize, src: &mut BytesMut) -> (r: Result<Option<(usize, usize)>, CodecError>)
    ensures
        r == spec_frame_extent(max_size, bytes_mut_view(*old(src))),
        r matches Ok(Some((prefix, len))) ==> 1 <= prefix && 1 <= len && prefix + len <= bytes_mut_view(
            *old(src),
        ).len(),
        bytes_mut_view(*final(src)) == bytes_mut_view(*old(src)),
{
    let buf = peek(src);
    let extent = frame_extent(max_size, buf);
    if let Ok(None) = extent {
        let have = buf.len();
        let missing = match read_varint(buf) {
            Ok((prefix, len)) if len >= 1 && (len as usize) > have - prefix => {
                len as usize - (have - prefix)
            },
            _ => 0,
        };
        if missing > 0 {
            reserve(src, missing);
        }
    }
    extent
}

/// Decodes one frame from the head of `src`. When the whole frame is there,
/// its bytes are consumed and it is returned; while bytes are missing,
/// `Ok(None)` is returned and `src` is left as it was (room for the missing
/// bytes is reserved). On an error `src` is left as it was too.
pub fn decode_frame(max_size: usize, src: &mut BytesMut) -> (r: Result<Option<RawPacket>, CodecError>)
    ensures
        decoded_view(r) == spec_decode(max_size, bytes_mut_view(*old(src))),
        r matches Ok(Some(_)) ==> bytes_mut_view(*final(src)) == bytes_mut_view(*old(src)).skip(
            spec_frame_end(max_size, bytes_mut_view(*old(src))),
        ),
        !(r matches Ok(Some(_))) ==> bytes_mut_view(*final(src)) == bytes_mut_view(*old(src)),
{
    let ghost s = bytes_mut_view(*src);
    let (prefix, len) = match locate_frame(max_size, src) {
        Err(e) => return Err(e),
        Ok(None) => return Ok(None),
        Ok(Some(extent)) => extent,
    };
    let buf = peek(src);
    let rest = vstd::slice::slice_subrange(buf, prefix, buf.len());
    assert(rest@ == s.skip(prefix as int));
    let (id_len, packet_id) = match read_varint(rest) {
        Err(e) => return Err(CodecError::Varint(e)),
        Ok(r) => r,
    };
    if id_len > len {
        return Err(CodecError::Size);
    }
    advance(src, prefix + id_len);
    let data = copy_to_bytes(src, len - id_len);
    proof {
        assert(bytes_view(data) =~= s.subrange(prefix + id_len, prefix + len as int));
        assert(bytes_mut_view(*src) =~= s.skip(prefix + len));
    }
    Ok(Some(RawPacket { packet_id, data }))
}

/// Writes the VarInt form of `val` at the end of `dst`.
pub fn write_varint(dst: &mut BytesMut, val: i32) -> (r: usize)
    ensures
        bytes_mut_view(*final(dst)) == bytes_mut_view(*old(dst)) + spec_varint(val),
        r == spec_varint(val).len(),
{
    let mut bytes: Vec<u8> = Vec::new();
    let n = crate::varint::write(&mut bytes, val);
    extend_from_slice(dst, bytes.as_slice());
    proof {
        assert(bytes@ =~= spec_varint(val));
    }
    n
}

/// Encodes a frame with identifier `packet_id` and `payload` at the end of
/// `dst`; on an error `dst` is left as it was.
pub fn encode_frame(max_size: usize, packet_id: i32, payload: &[u8], dst: &mut BytesMut) -> (r:
    Result<(), CodecError>)
    ensures
        r is Ok <==> spec_encode(max_size, packet_id, payload@) is Ok,
        r matches Err(e) ==> spec_encode(max_size, packet_id, payload@) == Err::<Seq<u8>, CodecError>(e),
        r is Ok ==> bytes_mut_view(*final(dst)) == bytes_mut_view(*old(dst)) + spec_encode(
            max_size,
            packet_id,
            payload@,
        )->Ok_0,
        r is Err ==> bytes_mut_view(*final(dst)) == bytes_mut_view(*old(dst)),
{
    let id_size = size(packet_id);
    if payload.len() > i32::MAX as usize {
        return Err(CodecError::Size);
    }
    let total = id_size + payload.len();
    if total > max_size || total > i32::MAX as usize {
        return Err(CodecError::Size);
    }
    let ghost start = bytes_mut_view(*dst);
    write_varint(dst, total as i32);
    write_varint(dst, packet_id);
    extend_from_slice(dst, payload);
    proof {
        assert(bytes_mut_view(*dst) =~= start + spec_encode(max_size, packet_id, payload@)->Ok_0);
    }
    Ok(())
}

/// Codec for uncompressed frames.
pub struct UncompressedCodec {
    max_size: usize,
}

/// Another name for [`UncompressedCodec`].
pub type MinecraftCodec = UncompressedCodec;

impl UncompressedCodec {
    /// The bound, exclusive, on the length of a decoded frame.
    pub closed spec fn spec_max_size(&self) -> usize {
        self.max_size
    }

    /// A codec with no bound but the one VarInt lengths impose.
    pub fn new() -> (r: Self)
        ensures
            r.spec_max_size() == usize::MAX,
    {
        UncompressedCodec { max_size: usize::MAX }
    }

    /// Sets the bound, exclusive, on the length of a frame that the decoder
    /// accepts, which is also the bound on what the encoder writes.
    pub fn max_size(self, max_size: usize) -> (r: Self)
        ensures
            r.spec_max_size() == max_size,
    {
        UncompressedCodec { max_size }
    }

    /// The bound set by [`Self::max_size`].
    pub fn get_max_size(&self) -> (r: usize)
        ensures
            r == self.spec_max_size(),
    {
        self.max_size
    }

    /// Decodes one frame from the head of `src`, as [`decode_frame`] does.
    pub fn decode(&self, src: &mut BytesMut) -> (r: Result<Option<RawPacket>, CodecError>)
        ensures
            decoded_view(r) == spec_decode(self.spec_max_size(), bytes_mut_view(*old(src))),
            r matches Ok(Some(_)) ==> bytes_mut_view(*final(src)) == bytes_mut_view(*old(src)).skip(
                spec_frame_end(self.spec_max_size(), bytes_mut_view(*old(src))),
            ),
            !(r matches Ok(Some(_))) ==> bytes_mut_view(*final(src)) == bytes_mut_view(*old(src)),
    {
        decode_frame(self.max_size, src)
    }

    /// Encodes `item` at the end of `dst`; on an error `dst` is left as it was.
    pub fn encode(&self, item: &RawPacket, dst: &mut BytesMut) -> (r: Result<(), CodecError>)
        ensures
            r is Ok <==> spec_encode(self.spec_max_size(), item@.0, item@.1) is Ok,
            r matches Err(e) ==> spec_encode(self.spec_max_size(), item@.0, item@.1) == Err::<
                Seq<u8>,
                CodecError,
            >(e),
            r is Ok ==> bytes_mut_view(*final(dst)) == bytes_mut_view(*old(dst)) + spec_encode(
                self.spec_max_size(),
                item@.0,
                item@.1,
            )->Ok_0,
            r is Err ==> bytes_mut_view(*final(dst)) == bytes_mut_view(*old(dst)),
    {
        encode_frame(self.max_size, item.packet_id, bytes_slice(&item.data), dst)
    }

    /// Encodes the typed packet `data` at the end of `dst`, with its type's
    /// identifier; on an error `dst` is left as it was.
    pub fn encode_packet<T: Serialize + PacketId>(&self, data: &T, dst: &mut BytesMut) -> (r: Result<
        (),
        CodecError,
    >)
        ensures
            r is Ok <==> spec_encode(self.spec_max_size(), T::ID, data.spec_serialize()) is Ok,
            r matches Err(e) ==> spec_encode(self.spec_max_size(), T::ID, data.spec_serialize())
                == Err::<Seq<u8>, CodecError>(e),
            r is Ok ==> bytes_mut_view(*final(dst)) == bytes_mut_view(*old(dst)) + spec_encode(
                self.spec_max_size(),
                T::ID,
                data.spec_serialize(),
            )->Ok_0,
            r is Err ==> bytes_mut_view(*final(dst)) == bytes_mut_view(*old(dst)),
    {
        let mut payload: Vec<u8> = Vec::new();
        data.serialize(&mut payload);
        assert(payload@ =~= data.spec_serialize());
        encode_frame(self.max_size, T::ID, payload.as_slice(), dst)
    }
}

impl Default for UncompressedCodec {
    fn default() -> (r: Self)
        ensures
            r.spec_max_size() == usize::MAX,
    {
        UncompressedCodec::new()
    }
}

} // verus!
