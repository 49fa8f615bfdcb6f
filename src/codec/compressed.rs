//! The compressed framing: `VarInt total_length | VarInt data_length | body`.
//! A frame whose identifier and payload together take fewer bytes than the
//! threshold goes out as is with a zero data length; one that takes at least
//! the threshold goes out zlib-compressed, with its size before compression
//! as the data length.
use crate::buffer::{
    advance, bytes_from_vec, bytes_mut_view, bytes_slice, bytes_view, copy_to_bytes,
    extend_from_slice, peek,
};
use crate::codec::{
    decoded_view, locate_frame, spec_frame_end, spec_frame_extent, write_varint, CodecError,
};
use crate::encoding::ser::Serialize;
use crate::packet::{PacketId, RawPacket};
use crate::varint::{lemma_varint_round_trip, read_varint, spec_read_varint, spec_varint};
use crate::zlib::{first_bytes, zlib_compress, zlib_compressed, zlib_inflate, zlib_inflated};
use bytes::BytesMut;
use vstd::prelude::*;

verus! {

/// The threshold that a new compressed codec starts with.
pub const DEFAULT_COMPRESSION_THRESHOLD: usize = 256;

/// The bytes of a compressed-shape frame whose identifier and payload take
/// the bytes `inner`, or `Size` when a length does not fit a VarInt.
pub open spec fn spec_encode_compressed(threshold: usize, inner: Seq<u8>) -> Result<
    Seq<u8>,
    CodecError,
> {
    let size = inner.len();
    if size > i32::MAX {
        Err(CodecError::Size)
    } else if size >= threshold {
        let body = zlib_compressed(inner);
        let total = spec_varint(size as i32).len() + body.len();
        if total > i32::MAX {
            Err(CodecError::Size)
        } else {
            Ok(spec_varint(total as i32) + spec_varint(size as i32) + body)
        }
    } else if size + 1 > i32::MAX {
        Err(CodecError::Size)
    } else {
        Ok(spec_varint((size + 1) as i32) + spec_varint(0) + inner)
    }
}

/// The identifier and payload in the bytes `b` that a frame carries, before
/// or after inflation.
pub open spec fn spec_split_packet(b: Seq<u8>) -> Result<Option<(i32, Seq<u8>)>, CodecError> {
    match spec_read_varint(b) {
        Err(e) => Err(CodecError::Varint(e)),
        Ok((n, id)) => Ok(Some((id, b.skip(n as int)))),
    }
}

/// The identifier and payload in inflated bytes, which must number exactly
/// `data_length`.
pub open spec fn spec_unpack_inflated(data_length: i32, inflated: Seq<u8>) -> Result<
    Option<(i32, Seq<u8>)>,
    CodecError,
> {
    if inflated.len() != data_length {
        Err(CodecError::Size)
    } else {
        spec_split_packet(inflated)
    }
}

/// The data length field of the frame at the head of `s` and the bytes of
/// the frame after it, when the frame is whole and the field can be read.
pub open spec fn spec_compressed_header(max_size: usize, s: Seq<u8>) -> Option<(i32, Seq<u8>)> {
    match spec_frame_extent(max_size, s) {
        Ok(Some((prefix, len))) => {
            let frame = s.subrange(prefix as int, prefix + len);
            match spec_read_varint(frame) {
                Ok((n, data_length)) => Some((data_length, frame.skip(n as int))),
                Err(_) => None,
            }
        },
        _ => None,
    }
}

/// Whether decoding `s` inflates a compressed body.
pub open spec fn spec_inflates(max_size: usize, s: Seq<u8>) -> bool {
    spec_compressed_header(max_size, s) matches Some((data_length, _)) && data_length > 0
}

/// What decoding `s` in the compressed shape gives: `Ok(None)` while more
/// bytes are needed, else the identifier and payload of the frame at its
/// head. Every field is read within the frame's declared length, and a
/// compressed body is inflated no further than one byte past its data
/// length, which is enough to tell that it does not match.
pub open spec fn spec_decode_compressed(max_size: usize, s: Seq<u8>) -> Result<
    Option<(i32, Seq<u8>)>,
    CodecError,
> {
    match spec_frame_extent(max_size, s) {
        Err(e) => Err(e),
        Ok(None) => Ok(None),
        Ok(Some((prefix, len))) => {
            let frame = s.subrange(prefix as int, prefix + len);
            match spec_read_varint(frame) {
                Err(e) => Err(CodecError::Varint(e)),
                Ok((n, data_length)) => {
                    let body = frame.skip(n as int);
                    if data_length == 0 {
                        spec_split_packet(body)
                    } else if data_length < 0 {
                        Err(CodecError::Size)
                    } else {
                        spec_unpack_inflated(
                            data_length,
                            first_bytes(zlib_inflated(body), data_length as nat + 1),
                        )
                    }
                },
            }
        },
    }
}

/// Compression threshold: a frame whose identifier and payload take one
/// byte less than the threshold goes out as it is, after a zero data length;
/// one whose identifier and payload take exactly the threshold goes out
/// compressed, after their size before compression.
pub proof fn lemma_compression_threshold(threshold: usize, id: i32, payload: Seq<u8>)
    requires
        spec_varint(id).len() + payload.len() + 1 <= i32::MAX,
    ensures
        ({
            let inner = spec_varint(id) + payload;
            let size = inner.len();
            let total = spec_varint(size as i32).len() + zlib_compressed(inner).len();
            &&& size + 1 == threshold ==> spec_encode_compressed(threshold, inner) == Ok::<
                Seq<u8>,
                CodecError,
            >(spec_varint((size + 1) as i32) + seq![0u8] + spec_varint(id) + payload)
            &&& size == threshold && total <= i32::MAX ==> spec_encode_compressed(threshold, inner)
                == Ok::<Seq<u8>, CodecError>(
                spec_varint(total as i32) + spec_varint(size as i32) + zlib_compressed(inner),
            )
        }),
{
    let inner = spec_varint(id) + payload;
    assert(spec_varint(0) =~= seq![0u8]);
    assert(spec_varint((inner.len() + 1) as i32) + seq![0u8] + inner =~= spec_varint(
        (inner.len() + 1) as i32,
    ) + seq![0u8] + spec_varint(id) + payload);
}

/// The declared length of the compressed-shape frame for `inner`.
pub open spec fn spec_compressed_total(threshold: usize, inner: Seq<u8>) -> nat {
    if inner.len() >= threshold {
        spec_varint(inner.len() as i32).len() + zlib_compressed(inner).len()
    } else {
        1 + inner.len()
    }
}

/// Decoding what the compressed encoder wrote, whatever follows it, takes
/// exactly its bytes: a frame below the threshold comes back as it was, and
/// a compressed one comes back from inflating the very stream that was
/// written, checked against its size before compression.
pub proof fn lemma_compressed_encode_decode(
    max_size: usize,
    threshold: usize,
    id: i32,
    payload: Seq<u8>,
    rest: Seq<u8>,
)
    requires
        spec_encode_compressed(threshold, spec_varint(id) + payload) is Ok,
        spec_compressed_total(threshold, spec_varint(id) + payload) < max_size,
    ensures
        ({
            let inner = spec_varint(id) + payload;
            let s = spec_encode_compressed(threshold, inner)->Ok_0 + rest;
            &&& spec_frame_end(max_size, s) == spec_encode_compressed(threshold, inner)->Ok_0.len()
            &&& inner.len() < threshold ==> spec_decode_compressed(max_size, s) == Ok::<
                Option<(i32, Seq<u8>)>,
                CodecError,
            >(Some((id, payload)))
            &&& inner.len() >= threshold ==> spec_decode_compressed(max_size, s)
                == spec_unpack_inflated(
                inner.len() as i32,
                first_bytes(zlib_inflated(zlib_compressed(inner)), inner.len() + 1),
            )
        }),
{
    let inner = spec_varint(id) + payload;
    let e = spec_encode_compressed(threshold, inner)->Ok_0;
    let s = e + rest;
    let total = spec_compressed_total(threshold, inner);
    let head = spec_varint(total as i32);
    let dl: i32 = if inner.len() >= threshold {
        inner.len() as i32
    } else {
        0
    };
    let body = if inner.len() >= threshold {
        zlib_compressed(inner)
    } else {
        inner
    };
    lemma_varint_round_trip(dl, body);
    assert(e =~= head + (spec_varint(dl) + body));
    assert(s =~= head + (spec_varint(dl) + body + rest));
    lemma_varint_round_trip(total as i32, spec_varint(dl) + body + rest);
    let frame = s.subrange(head.len() as int, head.len() + total as int);
    assert(frame =~= spec_varint(dl) + body);
    lemma_varint_round_trip(dl, body);
    assert(frame.skip(spec_varint(dl).len() as int) =~= body);
    if inner.len() < threshold {
        lemma_varint_round_trip(0, inner);
        lemma_varint_round_trip(id, payload);
        assert(inner.skip(spec_varint(id).len() as int) =~= payload);
    }
}

/// Splits inflated bytes into the packet identifier and where the payload
/// starts, after checking that they number exactly `data_length`.
pub fn unpack_inflated(data_length: i32, inflated: &[u8]) -> (r: Result<(i32, usize), CodecError>)
    ensures
        r is Ok <==> spec_unpack_inflated(data_length, inflated@) is Ok,
        r matches Ok((id, n)) ==> n <= inflated@.len() && spec_unpack_inflated(data_length, inflated@)
            == Ok::<Option<(i32, Seq<u8>)>, CodecError>(Some((id, inflated@.skip(n as int)))),
        r matches Err(e) ==> spec_unpack_inflated(data_length, inflated@) == Err::<
            Option<(i32, Seq<u8>)>,
            CodecError,
        >(e),
{
    if data_length < 0 || inflated.len() != data_length as usize {
        return Err(CodecError::Size);
    }
    match read_varint(inflated) {
        Err(e) => Err(CodecError::Varint(e)),
        Ok((n, id)) => Ok((id, n)),
    }
}

/// Codec for the compressed framing.
pub struct CompressedCodec {
    compression_threshold: usize,
    max_size: usize,
    compressed_buffer: Vec<u8>,
    uncompressed_buffer: Vec<u8>,
}

impl CompressedCodec {
    /// The bound, exclusive, on the length of a decoded frame.
    pub closed spec fn spec_max_size(&self) -> usize {
        self.max_size
    }

    /// The size before compression from which a frame is compressed.
    pub closed spec fn spec_threshold(&self) -> usize {
        self.compression_threshold
    }

    /// A codec with the default threshold and no bound but the one VarInt
    /// lengths impose.
    pub fn new() -> (r: Self)
        ensures
            r.spec_threshold() == DEFAULT_COMPRESSION_THRESHOLD,
            r.spec_max_size() == usize::MAX,
    {
        CompressedCodec {
            compression_threshold: DEFAULT_COMPRESSION_THRESHOLD,
            max_size: usize::MAX,
            compressed_buffer: Vec::new(),
            uncompressed_buffer: Vec::new(),
        }
    }

    /// Sets the compression threshold: the size before compression from
    /// which a frame is compressed.
    pub fn compression(self, threshold: usize) -> (r: Self)
        ensures
            r.spec_threshold() == threshold,
            r.spec_max_size() == self.spec_max_size(),
    {
        CompressedCodec { compression_threshold: threshold, ..self }
    }

    /// Sets the bound, exclusive, on the length of a frame that the decoder
    /// accepts.
    pub fn max_size(self, max_size: usize) -> (r: Self)
        ensures
            r.spec_max_size() == max_size,
            r.spec_threshold() == self.spec_threshold(),
    {
        CompressedCodec { max_size, ..self }
    }

    /// The bound set by [`Self::max_size`].
    pub fn get_max_size(&self) -> (r: usize)
        ensures
            r == self.spec_max_size(),
    {
        self.max_size
    }

    /// Sets the compression threshold in place.
    pub fn set_compression(&mut self, treshold: usize)
        ensures
            final(self).spec_threshold() == treshold,
            final(self).spec_max_size() == old(self).spec_max_size(),
    {
        self.compression_threshold = treshold;
    }

    /// The compression threshold.
    pub fn compression_treshold(&self) -> (r: usize)
        ensures
            r == self.spec_threshold(),
    {
        self.compression_threshold
    }

    /// Decodes one frame of the compressed shape from the head of `src`.
    /// When the whole frame is there, its bytes are consumed and it is
    /// returned; while bytes are missing, `Ok(None)` is returned and `src` is
    /// left as it was. On an error `src` is left as it was too. Only the
    /// inflation of a compressed body can fail with `Io`.
    pub fn decode(&mut self, src: &mut BytesMut) -> (r: Result<Option<RawPacket>, CodecError>)
        ensures
            final(self).spec_threshold() == old(self).spec_threshold(),
            final(self).spec_max_size() == old(self).spec_max_size(),
            !(r matches Err(CodecError::Io(_))) ==> decoded_view(r) == spec_decode_compressed(
                old(self).spec_max_size(),
                bytes_mut_view(*old(src)),
            ),
            r matches Err(CodecError::Io(_)) ==> spec_inflates(
                old(self).spec_max_size(),
                bytes_mut_view(*old(src)),
            ),
            r matches Ok(Some(_)) ==> bytes_mut_view(*final(src)) == bytes_mut_view(*old(src)).skip(
                spec_frame_end(old(self).spec_max_size(), bytes_mut_view(*old(src))),
            ),
            !(r matches Ok(Some(_))) ==> bytes_mut_view(*final(src)) == bytes_mut_view(*old(src)),
    {
        let ghost s = bytes_mut_view(*src);
        let (prefix, len) = match locate_frame(self.max_size, src) {
            Err(e) => return Err(e),
            Ok(None) => return Ok(None),
            Ok(Some(extent)) => extent,
        };
        let buf = peek(src);
        assert(buf@.len() == s.len() && buf@.len() == buf.len());
        let frame = vstd::slice::slice_subrange(buf, prefix, prefix + len);
        let ghost fr = s.subrange(prefix as int, prefix + len as int);
        assert(frame@ == fr);
        let (n, data_length) = match read_varint(frame) {
            Err(e) => return Err(CodecError::Varint(e)),
            Ok(r) => r,
        };
        let body = vstd::slice::slice_subrange(frame, n, frame.len());
        assert(body@ == fr.skip(n as int));
        if data_length == 0 {
            let (id_len, packet_id) = match read_varint(body) {
                Err(e) => return Err(CodecError::Varint(e)),
                Ok(r) => r,
            };
            advance(src, prefix + n + id_len);
            let data = copy_to_bytes(src, len - n - id_len);
            proof {
                assert(bytes_view(data) =~= fr.skip(n as int).skip(id_len as int));
                assert(bytes_mut_view(*src) =~= s.skip(prefix + len));
            }
            return Ok(Some(RawPacket { packet_id, data }));
        }
        if data_length < 0 {
            return Err(CodecError::Size);
        }
        self.uncompressed_buffer.clear();
        // inflate one byte past the data length: enough to tell that the
        // body is too long, without inflating all of it
        match zlib_inflate(body, data_length as u64 + 1, &mut self.uncompressed_buffer) {
            Err(e) => return Err(CodecError::Io(e)),
            Ok(_) => {},
        }
        assert(self.uncompressed_buffer@ =~= first_bytes(
            zlib_inflated(body@),
            data_length as nat + 1,
        ));
        let inflated = self.uncompressed_buffer.as_slice();
        let (packet_id, id_len) = match unpack_inflated(data_length, inflated) {
            Err(e) => return Err(e),
            Ok(r) => r,
        };
        let payload = vstd::slice::slice_to_vec(vstd::slice::slice_subrange(inflated, id_len, inflated.len()));
        let data = bytes_from_vec(payload);
        advance(src, prefix + len);
        proof {
            assert(bytes_view(data) =~= first_bytes(zlib_inflated(body@), data_length as nat + 1).skip(
                id_len as int,
            ));
        }
        Ok(Some(RawPacket { packet_id, data }))
    }

    /// Frames the bytes staged in the uncompressed scratch buffer.
    fn emit(&mut self, dst: &mut BytesMut) -> (r: Result<(), CodecError>)
        ensures
            final(self).spec_threshold() == old(self).spec_threshold(),
            final(self).spec_max_size() == old(self).spec_max_size(),
            !(r matches Err(CodecError::Io(_))) ==> (r is Ok <==> spec_encode_compressed(
                old(self).spec_threshold(),
                old(self).uncompressed_buffer@,
            ) is Ok),
            r matches Err(e) ==> e is Io || spec_encode_compressed(
                old(self).spec_threshold(),
                old(self).uncompressed_buffer@,
            ) == Err::<Seq<u8>, CodecError>(e),
            r matches Err(CodecError::Io(_)) ==> old(self).spec_threshold()
                <= old(self).uncompressed_buffer@.len() <= i32::MAX,
            r is Ok ==> bytes_mut_view(*final(dst)) == bytes_mut_view(*old(dst))
                + spec_encode_compressed(
                old(self).spec_threshold(),
                old(self).uncompressed_buffer@,
            )->Ok_0,
            r is Err ==> bytes_mut_view(*final(dst)) == bytes_mut_view(*old(dst)),
    {
        let ghost inner = self.uncompressed_buffer@;
        let ghost start = bytes_mut_view(*dst);
        let size = self.uncompressed_buffer.len();
        if size > i32::MAX as usize {
            return Err(CodecError::Size);
        }
        if size >= self.compression_threshold {
            self.compressed_buffer.clear();
            match zlib_compress(self.uncompressed_buffer.as_slice(), &mut self.compressed_buffer) {
                Err(e) => return Err(CodecError::Io(e)),
                Ok(()) => {},
            }
            assert(self.compressed_buffer@ =~= zlib_compressed(inner));
            let data_length = size as i32;
            let length_size = crate::varint::size(data_length);
            if self.compressed_buffer.len() > i32::MAX as usize - length_size {
                return Err(CodecError::Size);
            }
            let total = length_size + self.compressed_buffer.len();
            write_varint(dst, total as i32);
            write_varint(dst, data_length);
            extend_from_slice(dst, self.compressed_buffer.as_slice());
        } else {
            if size >= i32::MAX as usize {
                return Err(CodecError::Size);
            }
            write_varint(dst, (size + 1) as i32);
            write_varint(dst, 0);
            extend_from_slice(dst, self.uncompressed_buffer.as_slice());
        }
        assert(bytes_mut_view(*dst) =~= start + spec_encode_compressed(
            self.compression_threshold,
            inner,
        )->Ok_0);
        Ok(())
    }

    /// Encodes `item` at the end of `dst`, compressed when its identifier
    /// and payload take at least the threshold; on an error `dst` is left as
    /// it was. Only the compression itself can fail with `Io`.
    pub fn encode(&mut self, item: &RawPacket, dst: &mut BytesMut) -> (r: Result<(), CodecError>)
        ensures
            final(self).spec_threshold() == old(self).spec_threshold(),
            final(self).spec_max_size() == old(self).spec_max_size(),
            !(r matches Err(CodecError::Io(_))) ==> (r is Ok <==> spec_encode_compressed(
                old(self).spec_threshold(),
                spec_varint(item@.0) + item@.1,
            ) is Ok),
            r matches Err(e) ==> e is Io || spec_encode_compressed(
                old(self).spec_threshold(),
                spec_varint(item@.0) + item@.1,
            ) == Err::<Seq<u8>, CodecError>(e),
            r matches Err(CodecError::Io(_)) ==> old(self).spec_threshold() <= spec_varint(
                item@.0,
            ).len() + item@.1.len() <= i32::MAX,
            r is Ok ==> bytes_mut_view(*final(dst)) == bytes_mut_view(*old(dst))
                + spec_encode_compressed(
                old(self).spec_threshold(),
                spec_varint(item@.0) + item@.1,
            )->Ok_0,
            r is Err ==> bytes_mut_view(*final(dst)) == bytes_mut_view(*old(dst)),
    {
        self.uncompressed_buffer.clear();
        crate::varint::write(&mut self.uncompressed_buffer, item.packet_id);
        self.uncompressed_buffer.extend_from_slice(bytes_slice(&item.data));
        assert(self.uncompressed_buffer@ =~= spec_varint(item@.0) + item@.1);
        self.emit(dst)
    }

    /// Encodes the typed packet `data`, with its type's identifier, as
    /// [`Self::encode`] does.
    pub fn encode_packet<T: Serialize + PacketId>(&mut self, data: &T, dst: &mut BytesMut) -> (r:
        Result<(), CodecError>)
        ensures
            final(self).spec_threshold() == old(self).spec_threshold(),
            final(self).spec_max_size() == old(self).spec_max_size(),
            !(r matches Err(CodecError::Io(_))) ==> (r is Ok <==> spec_encode_compressed(
                old(self).spec_threshold(),
                spec_varint(T::ID) + data.spec_serialize(),
            ) is Ok),
            r matches Err(e) ==> e is Io || spec_encode_compressed(
                old(self).spec_threshold(),
                spec_varint(T::ID) + data.spec_serialize(),
            ) == Err::<Seq<u8>, CodecError>(e),
            r matches Err(CodecError::Io(_)) ==> old(self).spec_threshold() <= spec_varint(
                T::ID,
            ).len() + data.spec_serialize().len() <= i32::MAX,
            r is Ok ==> bytes_mut_view(*final(dst)) == bytes_mut_view(*old(dst))
                + spec_encode_compressed(
                old(self).spec_threshold(),
                spec_varint(T::ID) + data.spec_serialize(),
            )->Ok_0,
            r is Err ==> bytes_mut_view(*final(dst)) == bytes_mut_view(*old(dst)),
    {
        self.uncompressed_buffer.clear();
        crate::varint::write(&mut self.uncompressed_buffer, T::ID);
        data.serialize(&mut self.uncompressed_buffer);
        assert(self.uncompressed_buffer@ =~= spec_varint(T::ID) + data.spec_serialize());
        self.emit(dst)
    }
}

impl Default for CompressedCodec {
    fn default() -> (r: Self)
        ensures
            r.spec_threshold() == DEFAULT_COMPRESSION_THRESHOLD,
            r.spec_max_size() == usize::MAX,
    {
        CompressedCodec::new()
    }
}

} // verus!
