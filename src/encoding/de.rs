//! Deserialization: reading a value from the head of a byte slice, and
//! reporting how many bytes it took.
use crate::encoding::ser::{be_bytes, lemma_be_bytes_len, spec_byte_string, Serialize};
use crate::varint::{
    lemma_varint_round_trip, read_varint, spec_read_varint, spec_varint, VarIntError,
};
use vstd::arithmetic::div_mod::lemma_mod_breakdown;
use vstd::prelude::*;
use vstd::string::StringSliceAdditionalSpecFns;
use vstd::utf8::{
    decode_utf8, encode_utf8, encode_utf8_decode_utf8, encode_utf8_valid_utf8, valid_utf8,
};

verus! {

/// `std::str::Utf8Error`, the error of `std::str::from_utf8`.
#[verifier::external_type_specification]
#[verifier::external_body]
pub struct ExUtf8Error(std::str::Utf8Error);

/// Error raised while deserializing.
#[derive(Debug, Clone, Copy, PartialEq, Eq, Structural)]
pub enum DeError {
    /// The bytes hold a value that the type does not have, such as a `bool`
    /// byte other than 0 and 1, a negative length, or a string whose bytes
    /// are not UTF-8.
    InvalidData,
    /// The value needs more bytes than there are.
    Eof,
}

impl From<VarIntError> for DeError {
    fn from(e: VarIntError) -> (r: DeError) {
        match e {
            VarIntError::Eof => DeError::Eof,
            VarIntError::Big => DeError::InvalidData,
        }
    }
}

impl vstd::std_specs::convert::FromSpecImpl<VarIntError> for DeError {
    open spec fn obeys_from_spec() -> bool {
        true
    }

    open spec fn from_spec(e: VarIntError) -> DeError {
        match e {
            VarIntError::Eof => DeError::Eof,
            VarIntError::Big => DeError::InvalidData,
        }
    }
}

/// An executable outcome agrees with the specified one.
pub open spec fn same_outcome<T: DeepView>(
    r: Result<(T, usize), DeError>,
    s: Result<(T::V, nat), DeError>,
) -> bool {
    match (r, s) {
        (Ok((v, n)), Ok((w, m))) => v.deep_view() == w && n == m,
        (Err(e), Err(f)) => e == f,
        _ => false,
    }
}

/// A value that can be read back from its byte form.
pub trait Deserialize<'de>: Sized + DeepView {
    /// The value at the head of `s`, and the bytes it takes, or the error.
    spec fn spec_deserialize(s: Seq<u8>) -> Result<(Self::V, nat), DeError>;

    /// Reads a value from the head of `buf`, and tells how many bytes it
    /// took; bytes after it are not looked at.
    fn deserialize(buf: &'de [u8]) -> (r: Result<(Self, usize), DeError>)
        ensures
            same_outcome(r, Self::spec_deserialize(buf@)),
            r matches Ok((_, n)) ==> n <= buf@.len(),
    ;
}

/// The number whose big-endian bytes are `s`.
pub open spec fn be_value(s: Seq<u8>) -> nat
    decreases s.len(),
{
    if s.len() == 0 {
        0
    } else {
        be_value(s.drop_last()) * 256 + s.last() as nat
    }
}

/// `256^n`.
pub open spec fn byte_weight(n: nat) -> nat
    decreases n,
{
    if n == 0 {
        1
    } else {
        256 * byte_weight((n - 1) as nat)
    }
}

proof fn lemma_be_value_bound(s: Seq<u8>)
    ensures
        be_value(s) < byte_weight(s.len()),
    decreases s.len(),
{
    if s.len() > 0 {
        lemma_be_value_bound(s.drop_last());
        let v = be_value(s.drop_last());
        let w = byte_weight((s.len() - 1) as nat);
        let b = s.last() as nat;
        assert(v * 256 + b < 256 * w) by (nonlinear_arith)
            requires
                v < w,
                b < 256,
        ;
    }
}

/// The first `n` bytes of `s` as an unsigned big-endian number.
pub open spec fn spec_fixed(s: Seq<u8>, n: nat) -> Result<nat, DeError> {
    if s.len() < n {
        Err(DeError::Eof)
    } else {
        Ok(be_value(s.take(n as int)))
    }
}

fn be_prefix(buf: &[u8], n: usize) -> (r: u64)
    requires
        n <= 8,
        n <= buf@.len(),
    ensures
        r == be_value(buf@.take(n as int)),
    decreases n,
{
    if n == 0 {
        assert(buf@.take(0) =~= Seq::<u8>::empty());
        0
    } else {
        let high = be_prefix(buf, n - 1);
        proof {
            assert(buf@.take(n as int).drop_last() =~= buf@.take(n - 1));
            lemma_be_value_bound(buf@.take(n - 1));
            reveal_with_fuel(byte_weight, 8);
            assert(byte_weight((n - 1) as nat) <= 0x100_0000_0000_0000);
        }
        high * 256 + buf[n - 1] as u64
    }
}

fn read_fixed(buf: &[u8], n: usize) -> (r: Result<u64, DeError>)
    requires
        n <= 8,
    ensures
        match (r, spec_fixed(buf@, n as nat)) {
            (Ok(v), Ok(w)) => v == w,
            (Err(DeError::Eof), Err(DeError::Eof)) => true,
            _ => false,
        },
{
    if buf.len() < n {
        Err(DeError::Eof)
    } else {
        Ok(be_prefix(buf, n))
    }
}

impl<'de> Deserialize<'de> for u8 {
    open spec fn spec_deserialize(s: Seq<u8>) -> Result<(u8, nat), DeError> {
        match spec_fixed(s, 1) {
            Ok(v) => Ok((v as u8, 1)),
            Err(e) => Err(e),
        }
    }

    fn deserialize(buf: &'de [u8]) -> (r: Result<(u8, usize), DeError>) {
        match read_fixed(buf, 1) {
            Ok(v) => Ok((v as u8, 1)),
            Err(e) => Err(e),
        }
    }
}

impl<'de> Deserialize<'de> for i8 {
    open spec fn spec_deserialize(s: Seq<u8>) -> Result<(i8, nat), DeError> {
        match spec_fixed(s, 1) {
            Ok(v) => Ok(((v as u8) as i8, 1)),
            Err(e) => Err(e),
        }
    }

    fn deserialize(buf: &'de [u8]) -> (r: Result<(i8, usize), DeError>) {
        match read_fixed(buf, 1) {
            Ok(v) => Ok(((v as u8) as i8, 1)),
            Err(e) => Err(e),
        }
    }
}

impl<'de> Deserialize<'de> for u16 {
    open spec fn spec_deserialize(s: Seq<u8>) -> Result<(u16, nat), DeError> {
        match spec_fixed(s, 2) {
            Ok(v) => Ok((v as u16, 2)),
            Err(e) => Err(e),
        }
    }

    fn deserialize(buf: &'de [u8]) -> (r: Result<(u16, usize), DeError>) {
        match read_fixed(buf, 2) {
            Ok(v) => Ok((v as u16, 2)),
            Err(e) => Err(e),
        }
    }
}

impl<'de> Deserialize<'de> for i16 {
    open spec fn spec_deserialize(s: Seq<u8>) -> Result<(i16, nat), DeError> {
        match spec_fixed(s, 2) {
            Ok(v) => Ok(((v as u16) as i16, 2)),
            Err(e) => Err(e),
        }
    }

    fn deserialize(buf: &'de [u8]) -> (r: Result<(i16, usize), DeError>) {
        match read_fixed(buf, 2) {
            Ok(v) => Ok(((v as u16) as i16, 2)),
            Err(e) => Err(e),
        }
    }
}

impl<'de> Deserialize<'de> for u32 {
    open spec fn spec_deserialize(s: Seq<u8>) -> Result<(u32, nat), DeError> {
        match spec_fixed(s, 4) {
            Ok(v) => Ok((v as u32, 4)),
            Err(e) => Err(e),
        }
    }

    fn deserialize(buf: &'de [u8]) -> (r: Result<(u32, usize), DeError>) {
        match read_fixed(buf, 4) {
            Ok(v) => Ok((v as u32, 4)),
            Err(e) => Err(e),
        }
    }
}

impl<'de> Deserialize<'de> for i32 {
    open spec fn spec_deserialize(s: Seq<u8>) -> Result<(i32, nat), DeError> {
        match spec_fixed(s, 4) {
            Ok(v) => Ok(((v as u32) as i32, 4)),
            Err(e) => Err(e),
        }
    }

    fn deserialize(buf: &'de [u8]) -> (r: Result<(i32, usize), DeError>) {
        match read_fixed(buf, 4) {
            Ok(v) => Ok(((v as u32) as i32, 4)),
            Err(e) => Err(e),
        }
    }
}

impl<'de> Deserialize<'de> for u64 {
    open spec fn spec_deserialize(s: Seq<u8>) -> Result<(u64, nat), DeError> {
        match spec_fixed(s, 8) {
            Ok(v) => Ok((v as u64, 8)),
            Err(e) => Err(e),
        }
    }

    fn deserialize(buf: &'de [u8]) -> (r: Result<(u64, usize), DeError>) {
        match read_fixed(buf, 8) {
            Ok(v) => Ok((v, 8)),
            Err(e) => Err(e),
        }
    }
}

impl<'de> Deserialize<'de> for i64 {
    open spec fn spec_deserialize(s: Seq<u8>) -> Result<(i64, nat), DeError> {
        match spec_fixed(s, 8) {
            Ok(v) => Ok(((v as u64) as i64, 8)),
            Err(e) => Err(e),
        }
    }

    fn deserialize(buf: &'de [u8]) -> (r: Result<(i64, usize), DeError>) {
        match read_fixed(buf, 8) {
            Ok(v) => Ok((v as i64, 8)),
            Err(e) => Err(e),
        }
    }
}

impl<'de> Deserialize<'de> for bool {
    open spec fn spec_deserialize(s: Seq<u8>) -> Result<(bool, nat), DeError> {
        match spec_fixed(s, 1) {
            Ok(v) => if v == 1 {
                Ok((true, 1))
            } else if v == 0 {
                Ok((false, 1))
            } else {
                Err(DeError::InvalidData)
            },
            Err(e) => Err(e),
        }
    }

    fn deserialize(buf: &'de [u8]) -> (r: Result<(bool, usize), DeError>) {
        match read_fixed(buf, 1) {
            Ok(1) => Ok((true, 1)),
            Ok(0) => Ok((false, 1)),
            Ok(_) => Err(DeError::InvalidData),
            Err(e) => Err(e),
        }
    }
}

impl<'de> Deserialize<'de> for () {
    open spec fn spec_deserialize(s: Seq<u8>) -> Result<((), nat), DeError> {
        Ok(((), 0))
    }

    fn deserialize(buf: &'de [u8]) -> (r: Result<((), usize), DeError>) {
        Ok(((), 0))
    }
}

/// Where the bytes of a byte string at the head of `s` start and end.
pub open spec fn spec_byte_string_extent(s: Seq<u8>) -> Result<(nat, nat), DeError> {
    match spec_read_varint(s) {
        Err(VarIntError::Eof) => Err(DeError::Eof),
        Err(VarIntError::Big) => Err(DeError::InvalidData),
        Ok((n, len)) => if len < 0 {
            Err(DeError::InvalidData)
        } else if s.len() - n < len {
            Err(DeError::Eof)
        } else {
            Ok((n as nat, (n + len) as nat))
        },
    }
}

fn byte_string_extent(buf: &[u8]) -> (r: Result<(usize, usize), DeError>)
    ensures
        match (r, spec_byte_string_extent(buf@)) {
            (Ok((a, b)), Ok((c, d))) => a == c && b == d,
            (Err(e), Err(f)) => e == f,
            _ => false,
        },
        r matches Ok((a, b)) ==> a <= b <= buf@.len(),
{
    let (n, len) = match read_varint(buf) {
        Err(VarIntError::Eof) => return Err(DeError::Eof),
        Err(VarIntError::Big) => return Err(DeError::InvalidData),
        Ok(r) => r,
    };
    if len < 0 {
        return Err(DeError::InvalidData);
    }
    if buf.len() - n < len as usize {
        return Err(DeError::Eof);
    }
    Ok((n, n + len as usize))
}

impl<'de> Deserialize<'de> for &'de [u8] {
    /// Borrowed: the bytes are a view into the input.
    open spec fn spec_deserialize(s: Seq<u8>) -> Result<(Seq<u8>, nat), DeError> {
        match spec_byte_string_extent(s) {
            Ok((a, b)) => Ok((s.subrange(a as int, b as int), b)),
            Err(e) => Err(e),
        }
    }

    fn deserialize(buf: &'de [u8]) -> (r: Result<(&'de [u8], usize), DeError>) {
        match byte_string_extent(buf) {
            Ok((a, b)) => {
                let bytes = vstd::slice::slice_subrange(buf, a, b);
                assert(bytes.deep_view() =~= bytes@);
                Ok((bytes, b))
            },
            Err(e) => Err(e),
        }
    }
}

impl<'de> Deserialize<'de> for Vec<u8> {
    /// Owned: the bytes are copied out of the input.
    open spec fn spec_deserialize(s: Seq<u8>) -> Result<(Seq<u8>, nat), DeError> {
        match spec_byte_string_extent(s) {
            Ok((a, b)) => Ok((s.subrange(a as int, b as int), b)),
            Err(e) => Err(e),
        }
    }

    fn deserialize(buf: &'de [u8]) -> (r: Result<(Vec<u8>, usize), DeError>) {
        match byte_string_extent(buf) {
            Ok((a, b)) => {
                let v = vstd::slice::slice_to_vec(vstd::slice::slice_subrange(buf, a, b));
                assert(v.deep_view() =~= v@);
                Ok((v, b))
            },
            Err(e) => Err(e),
        }
    }
}

/// Relies on `std::str::from_utf8`: it succeeds exactly on valid UTF-8, and
/// the string it returns is made of those bytes.
#[verifier::external_body]
fn str_from_utf8<'a>(b: &'a [u8]) -> (r: Result<&'a str, std::str::Utf8Error>)
    ensures
        r is Ok <==> valid_utf8(b@),
        r matches Ok(s) ==> s.spec_bytes() == b@,
{
    std::str::from_utf8(b)
}

/// The characters of a string whose UTF-8 bytes are those of the byte
/// string at the head of `s`; bytes that are not UTF-8 are `InvalidData`.
pub open spec fn spec_str(s: Seq<u8>) -> Result<(Seq<char>, nat), DeError> {
    match spec_byte_string_extent(s) {
        Ok((a, b)) => if valid_utf8(s.subrange(a as int, b as int)) {
            Ok((decode_utf8(s.subrange(a as int, b as int)), b))
        } else {
            Err(DeError::InvalidData)
        },
        Err(e) => Err(e),
    }
}

fn read_str<'a>(buf: &'a [u8]) -> (r: Result<(&'a str, usize), DeError>)
    ensures
        same_outcome(r, spec_str(buf@)),
        r matches Ok((_, n)) ==> n <= buf@.len(),
{
    let (a, b) = match byte_string_extent(buf) {
        Ok(extent) => extent,
        Err(e) => return Err(e),
    };
    let bytes = vstd::slice::slice_subrange(buf, a, b);
    match str_from_utf8(bytes) {
        Ok(s) => {
            proof {
                encode_utf8_decode_utf8(s@);
            }
            Ok((s, b))
        },
        Err(_) => Err(DeError::InvalidData),
    }
}

impl<'de> Deserialize<'de> for &'de str {
    /// Borrowed: the string is a view into the input.
    open spec fn spec_deserialize(s: Seq<u8>) -> Result<(Seq<char>, nat), DeError> {
        spec_str(s)
    }

    fn deserialize(buf: &'de [u8]) -> (r: Result<(&'de str, usize), DeError>) {
        read_str(buf)
    }
}

impl<'de> Deserialize<'de> for String {
    /// Owned: the string is copied out of the input.
    open spec fn spec_deserialize(s: Seq<u8>) -> Result<(Seq<char>, nat), DeError> {
        spec_str(s)
    }

    fn deserialize(buf: &'de [u8]) -> (r: Result<(String, usize), DeError>) {
        match read_str(buf) {
            Ok((s, n)) => Ok((s.to_owned(), n)),
            Err(e) => Err(e),
        }
    }
}

impl<'de, T: Deserialize<'de>> Deserialize<'de> for Option<T> {
    open spec fn spec_deserialize(s: Seq<u8>) -> Result<(Option<T::V>, nat), DeError> {
        match bool::spec_deserialize(s) {
            Ok((true, n)) => match T::spec_deserialize(s.skip(n as int)) {
                Ok((v, m)) => Ok((Some(v), n + m)),
                Err(e) => Err(e),
            },
            Ok((false, n)) => Ok((None, n)),
            Err(e) => Err(e),
        }
    }

    fn deserialize(buf: &'de [u8]) -> (r: Result<(Option<T>, usize), DeError>) {
        let (present, n) = match bool::deserialize(buf) {
            Ok(r) => r,
            Err(e) => return Err(e),
        };
        if !present {
            return Ok((None, n));
        }
        let rest = vstd::slice::slice_subrange(buf, n, buf.len());
        assert(rest@ == buf@.skip(n as int));
        match T::deserialize(rest) {
            Ok((v, m)) => Ok((Some(v), n + m)),
            Err(e) => Err(e),
        }
    }
}

proof fn lemma_byte_weight_positive(n: nat)
    ensures
        byte_weight(n) > 0,
    decreases n,
{
    if n > 0 {
        lemma_byte_weight_positive((n - 1) as nat);
    }
}

/// Big-endian bytes read back as the number they came from, reduced to
/// their width.
proof fn lemma_be_value_of_bytes(x: nat, n: nat)
    ensures
        be_value(be_bytes(x, n)) == x % byte_weight(n),
    decreases n,
{
    if n > 0 {
        lemma_be_value_of_bytes(x / 256, (n - 1) as nat);
        assert(be_bytes(x, n).drop_last() =~= be_bytes(x / 256, (n - 1) as nat));
        lemma_byte_weight_positive((n - 1) as nat);
        lemma_mod_breakdown(x as int, 256, byte_weight((n - 1) as nat) as int);
    }
}

proof fn lemma_fixed_round_trip(x: nat, n: nat, rest: Seq<u8>)
    requires
        n <= 8,
    ensures
        spec_fixed(be_bytes(x, n) + rest, n) == Ok::<nat, DeError>(x % byte_weight(n)),
{
    lemma_be_bytes_len(x, n);
    assert((be_bytes(x, n) + rest).take(n as int) =~= be_bytes(x, n));
    lemma_be_value_of_bytes(x, n);
}

/// Reading back what `serialize` wrote for a fixed-width integer gives the
/// integer and takes exactly its bytes, whatever follows them.
pub proof fn lemma_integers_round_trip(
    a: u8,
    b: i8,
    c: u16,
    d: i16,
    e: u32,
    f: i32,
    g: u64,
    h: i64,
    rest: Seq<u8>,
)
    ensures
        u8::spec_deserialize(a.spec_serialize() + rest) == Ok::<(u8, nat), DeError>((a, 1)),
        i8::spec_deserialize(b.spec_serialize() + rest) == Ok::<(i8, nat), DeError>((b, 1)),
        u16::spec_deserialize(c.spec_serialize() + rest) == Ok::<(u16, nat), DeError>((c, 2)),
        i16::spec_deserialize(d.spec_serialize() + rest) == Ok::<(i16, nat), DeError>((d, 2)),
        u32::spec_deserialize(e.spec_serialize() + rest) == Ok::<(u32, nat), DeError>((e, 4)),
        i32::spec_deserialize(f.spec_serialize() + rest) == Ok::<(i32, nat), DeError>((f, 4)),
        u64::spec_deserialize(g.spec_serialize() + rest) == Ok::<(u64, nat), DeError>((g, 8)),
        i64::spec_deserialize(h.spec_serialize() + rest) == Ok::<(i64, nat), DeError>((h, 8)),
{
    reveal_with_fuel(byte_weight, 9);
    assert(byte_weight(1) == 0x100);
    assert(byte_weight(2) == 0x1_0000);
    assert(byte_weight(4) == 0x1_0000_0000);
    assert(byte_weight(8) == 0x1_0000_0000_0000_0000);
    lemma_fixed_round_trip(a as nat, 1, rest);
    lemma_fixed_round_trip((b as u8) as nat, 1, rest);
    assert((b as u8) as i8 == b) by (bit_vector);
    lemma_fixed_round_trip(c as nat, 2, rest);
    lemma_fixed_round_trip((d as u16) as nat, 2, rest);
    assert((d as u16) as i16 == d) by (bit_vector);
    lemma_fixed_round_trip(e as nat, 4, rest);
    lemma_fixed_round_trip((f as u32) as nat, 4, rest);
    assert((f as u32) as i32 == f) by (bit_vector);
    lemma_fixed_round_trip(g as nat, 8, rest);
    lemma_fixed_round_trip((h as u64) as nat, 8, rest);
    assert((h as u64) as i64 == h) by (bit_vector);
}

/// Reading back what `serialize` wrote for a `bool` gives it back and takes
/// one byte.
pub proof fn lemma_bool_round_trip(v: bool, rest: Seq<u8>)
    ensures
        bool::spec_deserialize(v.spec_serialize() + rest) == Ok::<(bool, nat), DeError>((v, 1)),
{
    let x: nat = if v {
        1
    } else {
        0
    };
    reveal_with_fuel(be_bytes, 2);
    assert(v.spec_serialize() =~= be_bytes(x, 1));
    lemma_fixed_round_trip(x, 1, rest);
    reveal_with_fuel(byte_weight, 2);
}

/// Reading back the byte form of a byte string no longer than `i32::MAX`
/// gives its bytes and takes exactly its byte form.
pub proof fn lemma_byte_string_round_trip(b: Seq<u8>, rest: Seq<u8>)
    requires
        b.len() <= i32::MAX,
    ensures
        spec_byte_string_extent(spec_byte_string(b) + rest) == Ok::<(nat, nat), DeError>(
            (spec_varint(b.len() as i32).len(), spec_byte_string(b).len()),
        ),
        (spec_byte_string(b) + rest).subrange(
            spec_varint(b.len() as i32).len() as int,
            spec_byte_string(b).len() as int,
        ) == b,
        <Vec<u8> as Deserialize>::spec_deserialize(spec_byte_string(b) + rest) == Ok::<
            (Seq<u8>, nat),
            DeError,
        >((b, spec_byte_string(b).len())),
{
    let head = spec_varint(b.len() as i32);
    assert(b.take(b.len() as int) =~= b);
    assert(spec_byte_string(b) + rest =~= head + (b + rest));
    lemma_varint_round_trip(b.len() as i32, b + rest);
    assert((spec_byte_string(b) + rest).subrange(head.len() as int, head.len() + b.len() as int) =~= b);
}

/// Reading back the byte form of a string gives its characters, when its
/// UTF-8 bytes number at most `i32::MAX`.
pub proof fn lemma_str_round_trip(c: Seq<char>, rest: Seq<u8>)
    requires
        encode_utf8(c).len() <= i32::MAX,
    ensures
        spec_str(spec_byte_string(encode_utf8(c)) + rest) == Ok::<(Seq<char>, nat), DeError>(
            (c, spec_byte_string(encode_utf8(c)).len()),
        ),
{
    lemma_byte_string_round_trip(encode_utf8(c), rest);
    encode_utf8_valid_utf8(c);
    encode_utf8_decode_utf8(c);
}

/// Reading back the byte form of an optional value gives it back and takes
/// exactly its byte form, when that holds of the value inside.
pub proof fn lemma_option_round_trip<'de, T: Serialize + Deserialize<'de>>(v: Option<T>, rest: Seq<u8>)
    requires
        v matches Some(x) ==> T::spec_deserialize(x.spec_serialize() + rest) == Ok::<
            (T::V, nat),
            DeError,
        >((x.deep_view(), x.spec_serialize().len())),
    ensures
        Option::<T>::spec_deserialize(v.spec_serialize() + rest) == Ok::<
            (Option<T::V>, nat),
            DeError,
        >((v.deep_view(), v.spec_serialize().len())),
{
    let s = v.spec_serialize() + rest;
    match v {
        Some(x) => {
            lemma_bool_round_trip(true, x.spec_serialize() + rest);
            assert(s =~= true.spec_serialize() + (x.spec_serialize() + rest));
            assert(s.skip(1) =~= x.spec_serialize() + rest);
        },
        None => {
            lemma_bool_round_trip(false, rest);
            assert(s =~= false.spec_serialize() + rest);
        },
    }
}

} // verus!
