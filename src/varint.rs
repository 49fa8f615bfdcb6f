//! VarInt: a signed 32-bit integer stored as little-endian groups of seven
//! bits, where the high bit of each byte says that another byte follows.
use vstd::prelude::*;

verus! {

/// Error raised while reading a VarInt.
#[derive(Debug, Clone, Copy, PartialEq, Eq, Structural)]
pub enum VarIntError {
    /// The buffer ended before a terminating byte was seen.
    Eof,
    /// A fifth byte still carried the continuation bit.
    Big,
}

/// The most bytes a VarInt ever takes.
pub const MAX_VARINT_LEN: usize = 5;

/// Weight of the `i`-th seven-bit group: `128^i`.
pub open spec fn group_weight(i: nat) -> nat
    decreases i,
{
    if i == 0 {
        1
    } else {
        128 * group_weight((i - 1) as nat)
    }
}

/// The VarInt bytes of an unsigned value: low group first, every byte but
/// the last with its high bit set.
pub open spec fn encode_groups(v: nat) -> Seq<u8>
    decreases v,
{
    if v < 128 {
        seq![v as u8]
    } else {
        seq![(v % 128 + 128) as u8] + encode_groups(v / 128)
    }
}

/// The bytes that `write` emits for `val`: its 32-bit pattern in groups.
pub open spec fn spec_varint(val: i32) -> Seq<u8> {
    encode_groups((val as u32) as nat)
}

/// Reading state machine: byte `i` is next, `acc` holds the groups read so far.
pub open spec fn read_from(s: Seq<u8>, i: nat, acc: nat) -> Result<(usize, nat), VarIntError>
    decreases MAX_VARINT_LEN - i,
{
    if i >= MAX_VARINT_LEN {
        Err(VarIntError::Big)
    } else if i >= s.len() {
        Err(VarIntError::Eof)
    } else {
        let b = s[i as int];
        let acc2 = acc + (b % 128) as nat * group_weight(i);
        if b < 128 {
            Ok(((i + 1) as usize, acc2))
        } else {
            read_from(s, i + 1, acc2)
        }
    }
}

/// What `read_varint` returns on `s`: the bytes taken and the value, whose
/// bits beyond the 32nd are dropped.
pub open spec fn spec_read_varint(s: Seq<u8>) -> Result<(usize, i32), VarIntError> {
    match read_from(s, 0, 0) {
        Ok((n, acc)) => Ok((n, ((acc % 0x1_0000_0000) as u32) as i32)),
        Err(e) => Err(e),
    }
}

/// Bit helpers for the bytes of a VarInt.
pub trait BitExtension: Sized {
    /// The byte with its continuation bit set.
    spec fn with_continue(self) -> Self;

    /// The byte with its continuation bit cleared.
    spec fn without_continue(self) -> Self;

    /// Whether the continuation bit is set.
    spec fn has_continue(self) -> bool;

    /// Sets the continuation bit.
    fn add_continue(self) -> (r: Self)
        ensures
            r == self.with_continue(),
    ;

    /// Clears the continuation bit, leaving the seven payload bits.
    fn mask_continue(self) -> (r: Self)
        ensures
            r == self.without_continue(),
    ;

    /// Tells whether the continuation bit is set.
    fn is_continue(&self) -> (r: bool)
        ensures
            r == self.has_continue(),
    ;
}

/// The high bit of a VarInt byte.
pub const CONTINUE_BIT: u8 = 0x80;

impl BitExtension for u8 {
    open spec fn with_continue(self) -> u8 {
        (self % 128 + 128) as u8
    }

    open spec fn without_continue(self) -> u8 {
        self % 128
    }

    open spec fn has_continue(self) -> bool {
        self >= 128
    }

    fn add_continue(self) -> (r: u8) {
        let r = self | CONTINUE_BIT;
        assert(self | 0x80u8 == (self % 128 + 128) as u8) by (bit_vector);
        r
    }

    fn mask_continue(self) -> (r: u8) {
        let r = self & !CONTINUE_BIT;
        assert(self & !0x80u8 == self % 128) by (bit_vector);
        r
    }

    fn is_continue(&self) -> (r: bool) {
        let b = *self;
        assert((b & 0x80u8) != 0 <==> b >= 128) by (bit_vector);
        (b & CONTINUE_BIT) != 0
    }
}

proof fn lemma_weight_bound(i: nat)
    requires
        i <= 4,
    ensures
        group_weight(i) <= 0x1000_0000,
        group_weight(i + 1) == 128 * group_weight(i),
{
    reveal_with_fuel(group_weight, 5);
}

/// Reads a VarInt from the front of `buffer` without consuming anything:
/// the number of bytes it takes and its value.
pub fn read_varint(buffer: &[u8]) -> (r: Result<(usize, i32), VarIntError>)
    ensures
        r == spec_read_varint(buffer@),
        r matches Ok((n, _)) ==> 1 <= n <= buffer@.len() && n <= MAX_VARINT_LEN,
{
    proof {
        lemma_read_from_bounds(buffer@, 0, 0);
    }
    let mut acc: u64 = 0;
    let mut weight: u64 = 1;
    let mut i: usize = 0;
    while i < MAX_VARINT_LEN
        invariant
            i <= MAX_VARINT_LEN,
            weight == group_weight(i as nat),
            i < MAX_VARINT_LEN ==> weight <= 0x1000_0000,
            acc < weight,
            read_from(buffer@, 0, 0) == read_from(buffer@, i as nat, acc as nat),
        decreases MAX_VARINT_LEN - i,
    {
        if i >= buffer.len() {
            return Err(VarIntError::Eof);
        }
        let byte = buffer[i];
        let group = byte.mask_continue();
        proof {
            lemma_weight_bound(i as nat);
            assert(group < 128);
            assert(group as nat * weight <= 127 * weight) by (nonlinear_arith)
                requires
                    group < 128,
            ;
        }
        acc = acc + (group as u64) * weight;
        if !byte.is_continue() {
            assert(acc as u32 == (acc % 0x1_0000_0000) as u32) by (bit_vector);
            return Ok((i + 1, (acc as u32) as i32));
        }
        weight = weight * 128;
        i = i + 1;
        proof {
            if i < MAX_VARINT_LEN {
                lemma_weight_bound(i as nat);
            }
        }
    }
    Err(VarIntError::Big)
}

/// Number of bytes in the VarInt form of `v`, by range.
pub proof fn lemma_encode_len(v: nat)
    ensures
        encode_groups(v).len() >= 1,
        v < 0x80 ==> encode_groups(v).len() == 1,
        0x80 <= v < 0x4000 ==> encode_groups(v).len() == 2,
        0x4000 <= v < 0x20_0000 ==> encode_groups(v).len() == 3,
        0x20_0000 <= v < 0x1000_0000 ==> encode_groups(v).len() == 4,
        0x1000_0000 <= v < 0x1_0000_0000 ==> encode_groups(v).len() == 5,
    decreases v,
{
    if v >= 128 {
        lemma_encode_len(v / 128);
    }
}

/// Writes the VarInt form of `val` at the end of `buf` and returns how many
/// bytes it took.
pub fn write(buf: &mut Vec<u8>, val: i32) -> (r: usize)
    ensures
        final(buf)@ == old(buf)@ + spec_varint(val),
        r == spec_varint(val).len(),
        1 <= r <= MAX_VARINT_LEN,
{
    let ghost start = buf@;
    let ghost total = encode_groups((val as u32) as nat);
    let mut v: u32 = val as u32;
    let mut n: usize = 0;
    proof {
        lemma_encode_len(v as nat);
    }
    while v >= 128
        invariant
            buf@ + encode_groups(v as nat) == start + total,
            n + encode_groups(v as nat).len() == total.len(),
            total.len() <= MAX_VARINT_LEN,
        decreases v,
    {
        proof {
            lemma_encode_len(v as nat);
            lemma_encode_len((v / 128) as nat);
            assert((v as u8) % 128 == v % 128) by (bit_vector);
            assert(v >> 7u32 == v / 128) by (bit_vector);
            assert(encode_groups(v as nat) == seq![(v % 128 + 128) as u8] + encode_groups((v / 128) as nat));
        }
        buf.push((v as u8).add_continue());
        v = v >> 7;
        n = n + 1;
        proof {
            assert(buf@ + encode_groups(v as nat) =~= start + total);
        }
    }
    buf.push(v as u8);
    proof {
        assert(buf@ =~= start + total);
    }
    n + 1
}

/// How many bytes `write` takes for `val`, without writing.
pub fn size(val: i32) -> (r: usize)
    ensures
        r == spec_varint(val).len(),
        1 <= r <= MAX_VARINT_LEN,
{
    let v = val as u32;
    proof {
        lemma_encode_len(v as nat);
    }
    if v < 0x80 {
        1
    } else if v < 0x4000 {
        2
    } else if v < 0x20_0000 {
        3
    } else if v < 0x1000_0000 {
        4
    } else {
        5
    }
}

/// Reading the VarInt form of `v` placed at byte `i` of `s` takes exactly
/// its bytes and adds `v`, weighted by the position, to `acc`.
proof fn lemma_read_encoded(v: nat, s: Seq<u8>, i: nat, acc: nat)
    requires
        i + encode_groups(v).len() <= MAX_VARINT_LEN,
        i + encode_groups(v).len() <= s.len(),
        s.subrange(i as int, i + encode_groups(v).len() as int) == encode_groups(v),
    ensures
        read_from(s, i, acc) == Ok::<(usize, nat), VarIntError>(
            ((i + encode_groups(v).len()) as usize, acc + v * group_weight(i)),
        ),
    decreases v,
{
    lemma_encode_len(v);
    let e = encode_groups(v);
    assert(s[i as int] == e[0]);
    if v >= 128 {
        let rest = encode_groups(v / 128);
        assert(e == seq![(v % 128 + 128) as u8] + rest);
        assert(s.subrange(i + 1 as int, i + 1 + rest.len() as int) =~= rest) by {
            assert forall|k: int| 0 <= k < rest.len() implies s.subrange(i + 1 as int, i + 1 + rest.len() as int)[k]
                == rest[k] by {
                assert(s[i + 1 + k] == s.subrange(i as int, i + e.len() as int)[1 + k]);
            }
        }
        let b = s[i as int];
        assert(b % 128 == v % 128);
        lemma_read_encoded(v / 128, s, i + 1, acc + (b % 128) as nat * group_weight(i));
        reveal_with_fuel(group_weight, 2);
        let w = group_weight(i);
        assert(group_weight(i + 1) == 128 * w);
        assert((v % 128) * w + (v / 128) * (128 * w) == v * w) by (nonlinear_arith)
            requires
                v == 128 * (v / 128) + v % 128,
        ;
    }
}

/// Round trip: reading what `write` produces for `val`, whatever follows
/// it, gives back `val` and consumes exactly `size(val)` bytes.
pub proof fn lemma_varint_round_trip(val: i32, rest: Seq<u8>)
    ensures
        spec_read_varint(spec_varint(val) + rest) == Ok::<(usize, i32), VarIntError>(
            (spec_varint(val).len() as usize, val),
        ),
        1 <= spec_varint(val).len() <= MAX_VARINT_LEN,
{
    let u = val as u32;
    let e = spec_varint(val);
    lemma_encode_len(u as nat);
    let s = e + rest;
    assert(s.subrange(0, e.len() as int) =~= e);
    lemma_read_encoded(u as nat, s, 0, 0);
    assert(group_weight(0) == 1);
    assert((u as nat) % 0x1_0000_0000 == u as nat);
    assert((val as u32) as i32 == val) by (bit_vector);
}

proof fn lemma_read_from_bounds(s: Seq<u8>, i: nat, acc: nat)
    ensures
        read_from(s, i, acc) is Ok ==> i < read_from(s, i, acc)->Ok_0.0 <= s.len()
            && read_from(s, i, acc)->Ok_0.0 <= MAX_VARINT_LEN,
    decreases MAX_VARINT_LEN - i,
{
    if i < MAX_VARINT_LEN && i < s.len() && s[i as int] >= 128 {
        lemma_read_from_bounds(s, i + 1, acc + (s[i as int] % 128) as nat * group_weight(i));
    }
}

proof fn lemma_read_from_prefix(s: Seq<u8>, s2: Seq<u8>, i: nat, acc: nat)
    requires
        read_from(s, i, acc) is Ok,
        s2.len() >= read_from(s, i, acc)->Ok_0.0,
        forall|j: int| 0 <= j < read_from(s, i, acc)->Ok_0.0 ==> s2[j] == s[j],
    ensures
        read_from(s2, i, acc) == read_from(s, i, acc),
    decreases MAX_VARINT_LEN - i,
{
    lemma_read_from_bounds(s, i, acc);
    assert(s2[i as int] == s[i as int]);
    if i < MAX_VARINT_LEN && i < s.len() && s[i as int] >= 128 {
        lemma_read_from_prefix(s, s2, i + 1, acc + (s[i as int] % 128) as nat * group_weight(i));
    }
}

proof fn lemma_read_from_short(s: Seq<u8>, k: nat, i: nat, acc: nat)
    requires
        read_from(s, i, acc) is Ok,
        i <= k < read_from(s, i, acc)->Ok_0.0,
    ensures
        read_from(s.take(k as int), i, acc) == Err::<(usize, nat), VarIntError>(VarIntError::Eof),
    decreases MAX_VARINT_LEN - i,
{
    lemma_read_from_bounds(s, i, acc);
    if i < k {
        assert(s.take(k as int)[i as int] == s[i as int]);
        lemma_read_from_short(s, k, i + 1, acc + (s[i as int] % 128) as nat * group_weight(i));
    }
}

/// A read that succeeds takes between one and five bytes, all present.
pub proof fn lemma_read_bounds(s: Seq<u8>)
    ensures
        spec_read_varint(s) is Ok ==> 1 <= spec_read_varint(s)->Ok_0.0 <= s.len()
            && spec_read_varint(s)->Ok_0.0 <= MAX_VARINT_LEN,
{
    lemma_read_from_bounds(s, 0, 0);
}

/// A read that succeeds depends on the bytes it takes alone: any shorter
/// prefix ends in `Eof`, and whatever follows those bytes is not looked at.
pub proof fn lemma_read_prefix(s: Seq<u8>, k: nat, t: Seq<u8>)
    requires
        spec_read_varint(s) is Ok,
    ensures
        k < spec_read_varint(s)->Ok_0.0 ==> spec_read_varint(s.take(k as int)) == Err::<
            (usize, i32),
            VarIntError,
        >(VarIntError::Eof),
        spec_read_varint(s.take(spec_read_varint(s)->Ok_0.0 as int) + t) == spec_read_varint(s),
{
    let n = read_from(s, 0, 0)->Ok_0.0;
    lemma_read_from_bounds(s, 0, 0);
    if k < n {
        lemma_read_from_short(s, k, 0, 0);
    }
    let s2 = s.take(n as int) + t;
    lemma_read_from_prefix(s, s2, 0, 0);
}

} // verus!
