//! Serialization: every value has a fixed byte form, and `size` is its exact
//! length, so buffers can be allocated once.
use crate::varint::{size as varint_size, spec_varint};
use vstd::prelude::*;
use vstd::utf8::encode_utf8;

verus! {

/// A value with a byte form on the wire. Every implementation writes
/// exactly `size()` bytes: `serialize` appends `spec_serialize()` and `size`
/// returns its length, so a buffer of that capacity never grows.
pub trait Serialize {
    /// The bytes that `serialize` writes.
    spec fn spec_serialize(&self) -> Seq<u8>;

    /// Appends the byte form of `self` to `buf`.
    fn serialize(&self, buf: &mut Vec<u8>)
        ensures
            final(buf)@ == old(buf)@ + self.spec_serialize(),
    ;

    /// The exact number of bytes that `serialize` writes.
    fn size(&self) -> (r: usize)
        requires
            self.spec_serialize().len() <= usize::MAX,
        ensures
            r == self.spec_serialize().len(),
    ;
}

/// The `n` low bytes of `x`, most significant first.
pub open spec fn be_bytes(x: nat, n: nat) -> Seq<u8>
    decreases n,
{
    if n == 0 {
        Seq::empty()
    } else {
        be_bytes(x / 256, (n - 1) as nat).push((x % 256) as u8)
    }
}

/// `be_bytes` has exactly `n` bytes.
pub proof fn lemma_be_bytes_len(x: nat, n: nat)
    ensures
        be_bytes(x, n).len() == n,
    decreases n,
{
    if n > 0 {
        lemma_be_bytes_len(x / 256, (n - 1) as nat);
    }
}

/// Appends the `n` low bytes of `x`, most significant first.
fn put_be(buf: &mut Vec<u8>, x: u64, n: usize)
    ensures
        final(buf)@ == old(buf)@ + be_bytes(x as nat, n as nat),
    decreases n,
{
    if n > 0 {
        put_be(buf, x / 256, n - 1);
        buf.push((x % 256) as u8);
        assert(buf@ =~= old(buf)@ + be_bytes(x as nat, n as nat));
    } else {
        assert(buf@ =~= old(buf)@ + be_bytes(x as nat, n as nat));
    }
}

impl Serialize for u8 {
    open spec fn spec_serialize(&self) -> Seq<u8> {
        be_bytes(*self as nat, 1)
    }

    fn serialize(&self, buf: &mut Vec<u8>) {
        put_be(buf, *self as u64, 1);
    }

    fn size(&self) -> (r: usize) {
        proof {
            lemma_be_bytes_len(*self as nat, 1);
        }
        1
    }
}

impl Serialize for i8 {
    open spec fn spec_serialize(&self) -> Seq<u8> {
        be_bytes((*self as u8) as nat, 1)
    }

    fn serialize(&self, buf: &mut Vec<u8>) {
        put_be(buf, (*self as u8) as u64, 1);
    }

    fn size(&self) -> (r: usize) {
        proof {
            lemma_be_bytes_len((*self as u8) as nat, 1);
        }
        1
    }
}

impl Serialize for u16 {
    open spec fn spec_serialize(&self) -> Seq<u8> {
        be_bytes(*self as nat, 2)
    }

    fn serialize(&self, buf: &mut Vec<u8>) {
        put_be(buf, *self as u64, 2);
    }

    fn size(&self) -> (r: usize) {
        proof {
            lemma_be_bytes_len(*self as nat, 2);
        }
        2
    }
}

impl Serialize for i16 {
    open spec fn spec_serialize(&self) -> Seq<u8> {
        be_bytes((*self as u16) as nat, 2)
    }

    fn serialize(&self, buf: &mut Vec<u8>) {
        put_be(buf, (*self as u16) as u64, 2);
    }

    fn size(&self) -> (r: usize) {
        proof {
            lemma_be_bytes_len((*self as u16) as nat, 2);
        }
        2
    }
}

impl Serialize for u32 {
    open spec fn spec_serialize(&self) -> Seq<u8> {
        be_bytes(*self as nat, 4)
    }

    fn serialize(&self, buf: &mut Vec<u8>) {
        put_be(buf, *self as u64, 4);
    }

    fn size(&self) -> (r: usize) {
        proof {
            lemma_be_bytes_len(*self as nat, 4);
        }
        4
    }
}

impl Serialize for i32 {
    open spec fn spec_serialize(&self) -> Seq<u8> {
        be_bytes((*self as u32) as nat, 4)
    }

    fn serialize(&self, buf: &mut Vec<u8>) {
        put_be(buf, (*self as u32) as u64, 4);
    }

    fn size(&self) -> (r: usize) {
        proof {
            lemma_be_bytes_len((*self as u32) as nat, 4);
        }
        4
    }
}

impl Serialize for u64 {
    open spec fn spec_serialize(&self) -> Seq<u8> {
        be_bytes(*self as nat, 8)
    }

    fn serialize(&self, buf: &mut Vec<u8>) {
        put_be(buf, *self, 8);
    }

    fn size(&self) -> (r: usize) {
        proof {
            lemma_be_bytes_len(*self as nat, 8);
        }
        8
    }
}

impl Serialize for i64 {
    open spec fn spec_serialize(&self) -> Seq<u8> {
        be_bytes((*self as u64) as nat, 8)
    }

    fn serialize(&self, buf: &mut Vec<u8>) {
        put_be(buf, *self as u64, 8);
    }

    fn size(&self) -> (r: usize) {
        proof {
            lemma_be_bytes_len((*self as u64) as nat, 8);
        }
        8
    }
}

impl Serialize for bool {
    open spec fn spec_serialize(&self) -> Seq<u8> {
        seq![if *self { 1u8 } else { 0u8 }]
    }

    fn serialize(&self, buf: &mut Vec<u8>) {
        buf.push(if *self { 1u8 } else { 0u8 });
        assert(buf@ =~= old(buf)@ + self.spec_serialize());
    }

    fn size(&self) -> (r: usize) {
        1
    }
}

impl Serialize for () {
    open spec fn spec_serialize(&self) -> Seq<u8> {
        Seq::empty()
    }

    fn serialize(&self, buf: &mut Vec<u8>) {
        assert(buf@ =~= old(buf)@ + self.spec_serialize());
    }

    fn size(&self) -> (r: usize) {
        0
    }
}

/// How many of `len` bytes a byte string keeps on the wire: its length
/// prefix is a VarInt, so at most `i32::MAX`.
pub open spec fn wire_len(len: nat) -> nat {
    if len > i32::MAX {
        i32::MAX as nat
    } else {
        len
    }
}

/// The byte form of a byte string: a VarInt length, then the bytes. A
/// length prefix counts at most `i32::MAX` bytes, so a longer byte string is
/// cut to its first `i32::MAX` bytes, and `size` counts what is written.
pub open spec fn spec_byte_string(b: Seq<u8>) -> Seq<u8> {
    spec_varint(wire_len(b.len()) as i32) + b.take(wire_len(b.len()) as int)
}

fn put_byte_string(buf: &mut Vec<u8>, b: &[u8])
    ensures
        final(buf)@ == old(buf)@ + spec_byte_string(b@),
{
    let len: usize = if b.len() > i32::MAX as usize {
        i32::MAX as usize
    } else {
        b.len()
    };
    crate::varint::write(buf, len as i32);
    let kept = vstd::slice::slice_subrange(b, 0, len);
    buf.extend_from_slice(kept);
    assert(buf@ =~= old(buf)@ + spec_byte_string(b@));
}

fn byte_string_size(b: &[u8]) -> (r: usize)
    requires
        spec_byte_string(b@).len() <= usize::MAX,
    ensures
        r == spec_byte_string(b@).len(),
{
    let len: usize = if b.len() > i32::MAX as usize {
        i32::MAX as usize
    } else {
        b.len()
    };
    varint_size(len as i32) + len
}

/// Byte strings, strings and vectors of bytes are written with their
/// length first; see [`spec_byte_string`] for those longer than `i32::MAX`.
impl Serialize for [u8] {
    open spec fn spec_serialize(&self) -> Seq<u8> {
        spec_byte_string(self@)
    }

    fn serialize(&self, buf: &mut Vec<u8>) {
        put_byte_string(buf, self);
    }

    fn size(&self) -> (r: usize) {
        byte_string_size(self)
    }
}

impl Serialize for Vec<u8> {
    open spec fn spec_serialize(&self) -> Seq<u8> {
        spec_byte_string(self@)
    }

    fn serialize(&self, buf: &mut Vec<u8>) {
        put_byte_string(buf, self.as_slice());
    }

    fn size(&self) -> (r: usize) {
        byte_string_size(self.as_slice())
    }
}

impl Serialize for str {
    open spec fn spec_serialize(&self) -> Seq<u8> {
        spec_byte_string(encode_utf8(self@))
    }

    fn serialize(&self, buf: &mut Vec<u8>) {
        put_byte_string(buf, self.as_bytes());
    }

    fn size(&self) -> (r: usize) {
        byte_string_size(self.as_bytes())
    }
}

impl Serialize for String {
    open spec fn spec_serialize(&self) -> Seq<u8> {
        spec_byte_string(encode_utf8(self@))
    }

    fn serialize(&self, buf: &mut Vec<u8>) {
        put_byte_string(buf, self.as_str().as_bytes());
    }

    fn size(&self) -> (r: usize) {
        byte_string_size(self.as_str().as_bytes())
    }
}

impl<T: Serialize> Serialize for Option<T> {
    open spec fn spec_serialize(&self) -> Seq<u8> {
        match self {
            Some(v) => seq![1u8] + v.spec_serialize(),
            None => seq![0u8],
        }
    }

    fn serialize(&self, buf: &mut Vec<u8>) {
        match self {
            Some(v) => {
                buf.push(1u8);
                v.serialize(buf);
            },
            None => {
                buf.push(0u8);
            },
        }
        assert(buf@ =~= old(buf)@ + self.spec_serialize());
    }

    fn size(&self) -> (r: usize) {
        match self {
            Some(v) => 1 + v.size(),
            None => 1,
        }
    }
}

impl<T: Serialize + ?Sized> Serialize for &T {
    open spec fn spec_serialize(&self) -> Seq<u8> {
        (**self).spec_serialize()
    }

    fn serialize(&self, buf: &mut Vec<u8>) {
        (**self).serialize(buf)
    }

    fn size(&self) -> (r: usize) {
        (**self).size()
    }
}

} // verus!
