use netherite::varint::{read_varint, size, VarIntError};

const TEST: &[(i32, &[u8])] = &[
    (0, &[0x00]),
    (127, &[0x7f]),
    (255, &[0xff, 0x01]),
    (25565, &[0xdd, 0xc7, 0x01]),
    (2097151, &[0xff, 0xff, 0x7f]),
    (2147483647, &[0xff, 0xff, 0xff, 0xff, 0x07]),
    (-2147483648, &[0x80, 0x80, 0x80, 0x80, 0x08]),
    (-1, &[0xff, 0xff, 0xff, 0xff, 0x0f]),
];

#[test]
fn varint_varint() {
    for (expected, input) in TEST.iter().copied() {
        let (bytes, res) = read_varint(input).unwrap();

        assert_eq!(bytes, input.len());
        assert_eq!(res, expected);
    }
}

#[test]
fn varint_varint_write() {
    for (input, expected) in TEST.iter().copied() {
        let mut buf = Vec::new();
        let written = netherite::varint::write(&mut buf, input);

        assert_eq!(written, expected.len());
        assert_eq!(&buf[..written], expected);
    }
}

#[test]
fn varint_varint_size() {
    for (input, expected) in TEST.iter().copied() {
        let size = size(input);

        assert_eq!(size, expected.len())
    }
}

#[test]
fn varint_round_trip_with_trailing_bytes() {
    for v in [0, 1, 127, 128, 16383, 16384, 2097152, 268435455, 268435456, i32::MAX, -1, -300, i32::MIN] {
        let mut buf = vec![];
        let n = netherite::varint::write(&mut buf, v);
        assert_eq!(n, size(v));
        assert_eq!(buf.len(), n);
        buf.extend_from_slice(&[0xAA, 0xBB]);
        assert_eq!(read_varint(&buf).unwrap(), (n, v));
    }
}

#[test]
fn varint_write_appends() {
    let mut buf = vec![9u8];
    netherite::varint::write(&mut buf, 128);
    assert_eq!(buf, vec![9, 0x80, 0x01]);
}

#[test]
fn varint_errors() {
    assert_eq!(read_varint(&[]), Err(VarIntError::Eof));
    assert_eq!(read_varint(&[0x80, 0x80]), Err(VarIntError::Eof));
    assert_eq!(read_varint(&[0x80, 0x80, 0x80, 0x80, 0x80, 0x00]), Err(VarIntError::Big));
}

#[test]
fn varint_fifth_byte_high_bits_dropped() {
    assert_eq!(read_varint(&[0xff, 0xff, 0xff, 0xff, 0x7f]).unwrap(), (5, -1));
}
