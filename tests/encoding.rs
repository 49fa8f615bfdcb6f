use netherite::encoding::de::{DeError, Deserialize};
use netherite::encoding::ser::Serialize;
use netherite::encoding::varint::VarInt;
use netherite::encoding::{deserialize_bytes, serialize_bytes};

fn assert_serialization<T: Serialize + ?Sized>(data: &T, to: &[u8]) {
    assert_eq!(data.size(), to.len(), "wrong size estimate");
    let res = serialize_bytes(data);
    assert_eq!(res.as_ref(), to);
}

#[test]
fn serialize_string() {
    assert_serialization("ciao", b"\x04ciao");
}

#[test]
fn serialize_option() {
    assert_serialization(&Option::<()>::None, &[0x00]);
    assert_serialization(&Some(10u32), &[0x01, 0x00, 0x00, 0x00, 0x0A]);
}

#[test]
fn serialize_varint() {
    assert_serialization(&VarInt(-1), &[0xff, 0xff, 0xff, 0xff, 0x0f]);
}

#[test]
fn deserialize() {
    let a: u32 = deserialize_bytes(&[0x00, 0x00, 0x00, 0x01]).unwrap();
    assert_eq!(a, 1u32);
}

#[test]
fn deserialize_str() {
    let a: &str = deserialize_bytes(b"\x04ciao_extradata").unwrap();
    assert_eq!(a, "ciao");
}

#[test]
fn deserialize_borrowed_bytes() {
    let input = b"\x04aaaa";
    let a: &[u8] = deserialize_bytes(input).unwrap();
    assert_eq!(a, &b"aaaa"[..]);
    assert_eq!(a.as_ptr(), input[1..].as_ptr());
}

#[test]
fn deserialize_owned_bytes() {
    let a: Vec<u8> = deserialize_bytes(b"\x04aaaa").unwrap();
    assert_eq!(a, Vec::from("aaaa"));
}

#[test]
fn deserialize_varint() {
    let a: VarInt = deserialize_bytes(b"\xff\x01").unwrap();
    assert_eq!(a, VarInt(255));
}

#[test]
fn deserialize_option() {
    let a: Option<u8> = deserialize_bytes(&[0x01, 0x01]).unwrap();
    assert_eq!(a, Some(1u8));
    let b: Option<()> = deserialize_bytes(&[0x00]).unwrap();
    assert_eq!(b, None);
}

#[test]
fn fixed_integers_are_big_endian_and_exact() {
    assert_serialization(&0x12u8, &[0x12]);
    assert_serialization(&-2i8, &[0xFE]);
    assert_serialization(&0x1234u16, &[0x12, 0x34]);
    assert_serialization(&-2i16, &[0xFF, 0xFE]);
    assert_serialization(&0x01020304u32, &[1, 2, 3, 4]);
    assert_serialization(&i32::MIN, &[0x80, 0, 0, 0]);
    assert_serialization(&0x0102030405060708u64, &[1, 2, 3, 4, 5, 6, 7, 8]);
    assert_serialization(&-1i64, &[0xFF; 8]);
    assert_serialization(&true, &[1]);
    assert_serialization(&false, &[0]);
    assert_serialization(&(), &[]);
}

#[test]
fn byte_strings_are_length_prefixed() {
    assert_serialization(&b""[..], &[0x00]);
    assert_serialization(&vec![7u8; 3], &[0x03, 7, 7, 7]);
    let long = vec![1u8; 200];
    let mut expected = vec![0xC8, 0x01];
    expected.extend_from_slice(&long);
    assert_serialization(&long, &expected);
    // byte count, not character count
    assert_serialization(&String::from("é"), &[0x02, 0xC3, 0xA9]);
    assert_serialization(&&"ab", &[0x02, b'a', b'b']);
}

#[test]
fn nested_option_is_exact() {
    assert_serialization(&Some(Some(VarInt(300))), &[0x01, 0x01, 0xAC, 0x02]);
    assert_serialization(&Some(String::from("x")), &[0x01, 0x01, b'x']);
}

#[test]
fn fixed_integers_read_back() {
    assert_eq!(deserialize_bytes::<i16>(&[0xFF, 0xFE]).unwrap(), -2);
    assert_eq!(deserialize_bytes::<u16>(&[0x12, 0x34]).unwrap(), 0x1234);
    assert_eq!(deserialize_bytes::<i8>(&[0x80]).unwrap(), -128);
    assert_eq!(deserialize_bytes::<i32>(&[0x80, 0, 0, 0]).unwrap(), i32::MIN);
    assert_eq!(deserialize_bytes::<u64>(&[1, 2, 3, 4, 5, 6, 7, 8]).unwrap(), 0x0102030405060708);
    assert_eq!(deserialize_bytes::<i64>(&[0xFF; 8]).unwrap(), -1);
    assert_eq!(u32::deserialize(&[0, 0, 0, 5, 9]).unwrap(), (5, 4));
}

#[test]
fn short_input_is_eof() {
    assert!(matches!(deserialize_bytes::<u32>(&[0, 0, 1]), Err(DeError::Eof)));
    assert!(matches!(deserialize_bytes::<bool>(&[]), Err(DeError::Eof)));
    assert!(matches!(deserialize_bytes::<Vec<u8>>(b"\x05abc"), Err(DeError::Eof)));
    assert!(matches!(deserialize_bytes::<VarInt>(&[0x80]), Err(DeError::Eof)));
}

#[test]
fn bad_bool_is_invalid_data() {
    assert!(matches!(deserialize_bytes::<bool>(&[2]), Err(DeError::InvalidData)));
    assert!(matches!(deserialize_bytes::<Option<u8>>(&[7, 1]), Err(DeError::InvalidData)));
}

#[test]
fn negative_length_is_invalid_data() {
    let input = [0xFF, 0xFF, 0xFF, 0xFF, 0x0F, 1, 2];
    assert!(matches!(deserialize_bytes::<&[u8]>(&input), Err(DeError::InvalidData)));
    let big = [0xFF, 0xFF, 0xFF, 0xFF, 0xFF, 0x01];
    assert!(matches!(deserialize_bytes::<VarInt>(&big), Err(DeError::InvalidData)));
}

#[test]
fn invalid_utf8_is_invalid_data() {
    assert!(matches!(deserialize_bytes::<&str>(&[0x02, 0xC3, 0x28]), Err(DeError::InvalidData)));
    assert!(matches!(deserialize_bytes::<String>(&[0x01, 0xFF]), Err(DeError::InvalidData)));
    let s: String = deserialize_bytes(&[0x02, 0xC3, 0xA9]).unwrap();
    assert_eq!(s, "é");
}

#[test]
fn option_reads_present_value() {
    let (v, n) = Option::<VarInt>::deserialize(&[0x01, 0xAC, 0x02, 0x99]).unwrap();
    assert_eq!(v, Some(VarInt(300)));
    assert_eq!(n, 3);
}

#[test]
fn values_read_back_from_their_bytes() {
    let mut buf = Vec::new();
    (-5i16).serialize(&mut buf);
    Some(VarInt(-7)).serialize(&mut buf);
    String::from("hé").serialize(&mut buf);
    true.serialize(&mut buf);
    buf.push(0xEE);

    let (a, n1) = i16::deserialize(&buf).unwrap();
    assert_eq!((a, n1), (-5, 2));
    let (b, n2) = Option::<VarInt>::deserialize(&buf[n1..]).unwrap();
    assert_eq!(b, Some(VarInt(-7)));
    assert_eq!(n2, 1 + VarInt(-7).size());
    let (c, n3) = String::deserialize(&buf[n1 + n2..]).unwrap();
    assert_eq!(c, "hé");
    assert_eq!(n3, 4);
    let (d, n4) = bool::deserialize(&buf[n1 + n2 + n3..]).unwrap();
    assert!(d);
    assert_eq!(n1 + n2 + n3 + n4, buf.len() - 1);
}
