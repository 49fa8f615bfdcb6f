use bytes::{Bytes, BytesMut};
use netherite::codec::compressed::unpack_inflated;
use netherite::codec::{CodecError, CompressedCodec, SwitchCodec, UncompressedCodec};
use netherite::packet::RawPacket;
use netherite::varint::VarIntError;

fn decode_once(bytes: &[u8]) -> Result<Option<RawPacket>, CodecError> {
    let mut buf = BytesMut::from(bytes);
    UncompressedCodec::default().decode(&mut buf)
}

#[test]
fn invalid_size() {
    let res = decode_once(&[0]);
    assert!(matches!(res, Err(CodecError::Size)))
}

#[test]
fn invalid_packetid() {
    let res = decode_once(&[0x02, 0xFF, 0xFF]);
    assert!(matches!(res, Err(CodecError::Varint(_))))
}

#[test]
fn negative_size() {
    let res = decode_once(&[0xff, 0xff, 0xff, 0xff, 0x0f]);
    assert!(matches!(res, Err(CodecError::Size)))
}

#[test]
fn longer_packetid() {
    let res = decode_once(&[0x01, 0xff, 0x01]);
    assert!(matches!(res, Err(CodecError::Size)))
}

#[test]
fn zero_data() {
    let packet = decode_once(&[0x02, 0xff, 0x01]).unwrap().unwrap();
    assert_eq!(packet.packet_id, 255);
    assert_eq!(packet.data.len(), 0);
}

#[test]
fn packet_id_running_out_of_bytes_is_eof() {
    let res = decode_once(&[0x02, 0xFF, 0xFF]);
    assert!(matches!(res, Err(CodecError::Varint(VarIntError::Eof))));
}

#[test]
fn length_prefix_too_big() {
    let res = decode_once(&[0xff, 0xff, 0xff, 0xff, 0xff, 0x01]);
    assert!(matches!(res, Err(CodecError::Varint(VarIntError::Big))));
}

#[test]
fn empty_buffer_needs_more() {
    assert!(matches!(decode_once(&[]), Ok(None)));
}

#[test]
fn length_at_max_size_is_refused() {
    let mut buf = BytesMut::from(&[0x03, 0x01, 0xAA, 0xBB][..]);
    let codec = UncompressedCodec::default().max_size(3);
    assert!(matches!(codec.decode(&mut buf), Err(CodecError::Size)));
    assert_eq!(buf.len(), 4);
    let codec = UncompressedCodec::default().max_size(4);
    let packet = codec.decode(&mut buf).unwrap().unwrap();
    assert_eq!(packet.packet_id, 1);
    assert_eq!(&packet.data[..], &[0xAA, 0xBB]);
}

#[test]
fn decode_consumes_exactly_one_frame() {
    let mut buf = BytesMut::from(&[0x03, 0x07, 0x01, 0x02, 0x02, 0x08, 0x09][..]);
    let codec = UncompressedCodec::default();
    let first = codec.decode(&mut buf).unwrap().unwrap();
    assert_eq!(first.packet_id, 7);
    assert_eq!(&first.data[..], &[0x01, 0x02]);
    assert_eq!(&buf[..], &[0x02, 0x08, 0x09]);
    let second = codec.decode(&mut buf).unwrap().unwrap();
    assert_eq!(second.packet_id, 8);
    assert_eq!(&second.data[..], &[0x09]);
    assert!(buf.is_empty());
}

#[test]
fn fragmented_frame_decodes_like_contiguous() {
    let frame: &[u8] = &[0x05, 0xDD, 0xC7, 0x01, 0x61, 0x62];
    let whole = decode_once(frame).unwrap().unwrap();
    let codec = UncompressedCodec::default();
    let mut buf = BytesMut::new();
    for (i, b) in frame.iter().enumerate() {
        buf.extend_from_slice(&[*b]);
        let res = codec.decode(&mut buf).unwrap();
        if i + 1 < frame.len() {
            assert!(res.is_none());
            assert_eq!(&buf[..], &frame[..i + 1]);
        } else {
            let packet = res.unwrap();
            assert_eq!(packet.packet_id, whole.packet_id);
            assert_eq!(packet.data, whole.data);
            assert_eq!(packet.packet_id, 25565);
            assert_eq!(&packet.data[..], b"ab");
            assert!(buf.is_empty());
        }
    }
}

#[test]
fn encode_writes_length_id_payload() {
    let codec = UncompressedCodec::default();
    let item = RawPacket { packet_id: 255, data: Bytes::from_static(b"hi") };
    let mut dst = BytesMut::new();
    codec.encode(&item, &mut dst).unwrap();
    assert_eq!(&dst[..], &[0x04, 0xFF, 0x01, b'h', b'i']);
    let back = codec.decode(&mut dst).unwrap().unwrap();
    assert_eq!(back.packet_id, 255);
    assert_eq!(&back.data[..], b"hi");
}

#[test]
fn encode_over_max_size_fails() {
    let codec = UncompressedCodec::default().max_size(2);
    let item = RawPacket { packet_id: 1, data: Bytes::from_static(b"xy") };
    let mut dst = BytesMut::from(&b"keep"[..]);
    assert!(matches!(codec.encode(&item, &mut dst), Err(CodecError::Size)));
    assert_eq!(&dst[..], b"keep");
}

fn compressed_frame(codec: &mut CompressedCodec, payload: &[u8]) -> BytesMut {
    let item = RawPacket { packet_id: 1, data: Bytes::copy_from_slice(payload) };
    let mut dst = BytesMut::new();
    codec.encode(&item, &mut dst).unwrap();
    dst
}

#[test]
fn below_threshold_goes_uncompressed() {
    // identifier (1 byte) + 3 payload bytes = 4 = threshold - 1
    let mut codec = CompressedCodec::default().compression(5);
    let dst = compressed_frame(&mut codec, b"abc");
    assert_eq!(&dst[..], &[0x05, 0x00, 0x01, b'a', b'b', b'c']);
}

#[test]
fn at_threshold_goes_compressed() {

    let mut codec = CompressedCodec::default().compression(5);
    let dst = compressed_frame(&mut codec, b"abcd");
    // declared length, then the size before compression
    assert_eq!(dst[1], 0x05);
    assert_eq!(dst[0] as usize, dst.len() - 1);
    let mut inflated = Vec::new();
    std::io::Read::read_to_end(&mut flate2::read::ZlibDecoder::new(&dst[2..]), &mut inflated).unwrap();
    assert_eq!(&inflated[..], &[0x01, b'a', b'b', b'c', b'd']);
}

#[test]
fn compressed_round_trip() {
    let mut codec = CompressedCodec::default().compression(4);
    let payload: Vec<u8> = (0..200u8).collect();
    let mut dst = compressed_frame(&mut codec, &payload);
    assert_ne!(&dst[3..], &payload[..]);
    let back = codec.decode(&mut dst).unwrap().unwrap();
    assert_eq!(back.packet_id, 1);
    assert_eq!(&back.data[..], &payload[..]);
    assert!(dst.is_empty());
}

#[test]
fn uncompressed_shape_round_trip() {
    let mut codec = CompressedCodec::default();
    let mut dst = compressed_frame(&mut codec, b"small");
    let back = codec.decode(&mut dst).unwrap().unwrap();
    assert_eq!(back.packet_id, 1);
    assert_eq!(&back.data[..], b"small");
}

#[test]
fn corrupt_compressed_body_is_io_error() {
    let mut codec = CompressedCodec::default();
    let mut src = BytesMut::from(&[0x04, 0x05, 0x11, 0x22, 0x33][..]);
    assert!(matches!(codec.decode(&mut src), Err(CodecError::Io(_))));
    assert_eq!(src.len(), 5);
}

#[test]
fn inflated_length_mismatch_is_size() {
    assert!(matches!(unpack_inflated(3, &[0x01, 0x02]), Err(CodecError::Size)));
    let (id, start) = unpack_inflated(3, &[0xFF, 0x01, 0x09]).unwrap();
    assert_eq!(id, 255);
    assert_eq!(start, 2);
    assert!(matches!(
        unpack_inflated(1, &[0x80]),
        Err(CodecError::Varint(VarIntError::Eof))
    ));
}

#[test]
fn compression_settings() {
    let mut codec = CompressedCodec::default();
    assert_eq!(codec.compression_treshold(), 256);
    codec.set_compression(64);
    assert_eq!(codec.compression_treshold(), 64);
    let codec = codec.max_size(1000);
    assert_eq!(codec.get_max_size(), 1000);
    assert_eq!(codec.compression_treshold(), 64);
}

#[test]
fn switch_codec_dispatches() {
    let mut switch = SwitchCodec::from(UncompressedCodec::default()).max_size(100);
    assert_eq!(switch.get_max_size(), 100);
    let mut buf = BytesMut::from(&[0x02, 0xff, 0x01][..]);
    let packet = switch.decode(&mut buf).unwrap().unwrap();
    assert_eq!(packet.packet_id, 255);

    let mut switch = SwitchCodec::from(CompressedCodec::default());
    let item = RawPacket { packet_id: 2, data: Bytes::from_static(b"z") };
    let mut dst = BytesMut::new();
    switch.encode(&item, &mut dst).unwrap();
    assert_eq!(&dst[..], &[0x03, 0x00, 0x02, b'z']);
}

#[test]
fn inflating_past_data_length_is_size() {
    let mut body = Vec::new();
    {
        let mut encoder =
            flate2::write::ZlibEncoder::new(&mut body, flate2::Compression::default());
        std::io::Write::write_all(&mut encoder, &[0x01; 40]).unwrap();
        encoder.finish().unwrap();
    }
    // the body inflates to 40 bytes, but the frame declares 3
    let mut frame = vec![(body.len() + 1) as u8, 0x03];
    frame.extend_from_slice(&body);
    let mut src = BytesMut::from(&frame[..]);
    let mut codec = CompressedCodec::default();
    assert!(matches!(codec.decode(&mut src), Err(CodecError::Size)));
    assert_eq!(src.len(), frame.len());
}
