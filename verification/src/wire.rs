//! Big-endian integers, the building block of every CQL message.

use vstd::prelude::*;

verus! {

/// The number that a byte string denotes when read big-endian and unsigned.
pub open spec fn be_unsigned(s: Seq<u8>) -> nat
    decreases s.len(),
{
    if s.len() == 0 {
        0
    } else {
        be_unsigned(s.drop_last()) * 256 + s.last() as nat
    }
}

/// 256 to the power `n`: the number of distinct strings of `n` bytes.
pub open spec fn pow256(n: nat) -> nat
    decreases n,
{
    if n == 0 {
        1
    } else {
        256 * pow256((n - 1) as nat)
    }
}

/// The number that a byte string denotes when read big-endian in two's
/// complement. The empty string denotes zero.
pub open spec fn be_signed(s: Seq<u8>) -> int {
    if s.len() > 0 && s[0] >= 128 {
        be_unsigned(s) - pow256(s.len())
    } else {
        be_unsigned(s) as int
    }
}

/// The two bytes of a `[short]`.
pub open spec fn u16_bytes(v: u16) -> Seq<u8> {
    seq![(v / 256) as u8, (v % 256) as u8]
}

/// The four bytes of an unsigned 32-bit number.
pub open spec fn u32_bytes(v: u32) -> Seq<u8> {
    seq![
        (v / 0x100_0000) as u8,
        ((v / 0x1_0000) % 256) as u8,
        ((v / 0x100) % 256) as u8,
        (v % 256) as u8,
    ]
}

/// The unsigned number with the same 32 bits as `v`.
pub open spec fn i32_bits(v: i32) -> u32 {
    if v < 0 {
        (v + 0x1_0000_0000) as u32
    } else {
        v as u32
    }
}

/// The signed number with the same 32 bits as `u`.
pub open spec fn u32_signed(u: u32) -> i32 {
    if u >= 0x8000_0000 {
        (u - 0x1_0000_0000) as i32
    } else {
        u as i32
    }
}

/// The four bytes of an `[int]`, two's complement.
pub open spec fn i32_bytes(v: i32) -> Seq<u8> {
    u32_bytes(i32_bits(v))
}

pub proof fn lemma_be_unsigned_2(s: Seq<u8>)
    requires
        s.len() == 2,
    ensures
        be_unsigned(s) == s[0] * 256 + s[1],
{
    reveal_with_fuel(be_unsigned, 3);
    assert(s.drop_last().drop_last().len() == 0);
    assert(s.drop_last().last() == s[0]);
}

pub proof fn lemma_be_unsigned_4(s: Seq<u8>)
    requires
        s.len() == 4,
    ensures
        be_unsigned(s) == s[0] * 0x100_0000 + s[1] * 0x1_0000 + s[2] * 0x100 + s[3],
{
    reveal_with_fuel(be_unsigned, 5);
    let s3 = s.drop_last();
    let s2 = s3.drop_last();
    let s1 = s2.drop_last();
    assert(s1.drop_last().len() == 0);
    assert(s3.last() == s[2]);
    assert(s2.last() == s[1]);
    assert(s1.last() == s[0]);
}

pub proof fn lemma_pow256_values()
    ensures
        pow256(0) == 1,
        pow256(1) == 0x100,
        pow256(2) == 0x1_0000,
        pow256(3) == 0x100_0000,
        pow256(4) == 0x1_0000_0000,
{
    reveal_with_fuel(pow256, 5);
}

/// Reading back the two bytes of a `[short]` gives the number.
pub proof fn lemma_u16_round_trip(v: u16)
    ensures
        u16_bytes(v).len() == 2,
        be_unsigned(u16_bytes(v)) == v,
{
    lemma_be_unsigned_2(u16_bytes(v));
}

/// Two bytes are the `[short]` of the number they denote.
pub proof fn lemma_u16_bytes_of_value(s: Seq<u8>)
    requires
        s.len() == 2,
    ensures
        be_unsigned(s) <= u16::MAX,
        u16_bytes(be_unsigned(s) as u16) == s,
{
    lemma_be_unsigned_2(s);
    assert(u16_bytes(be_unsigned(s) as u16) =~= s);
}

/// Reading back the four bytes of an unsigned number gives the number.
pub proof fn lemma_u32_round_trip(v: u32)
    ensures
        u32_bytes(v).len() == 4,
        be_unsigned(u32_bytes(v)) == v,
{
    lemma_be_unsigned_4(u32_bytes(v));
}

/// Four bytes are the encoding of the unsigned number they denote.
pub proof fn lemma_u32_bytes_of_value(s: Seq<u8>)
    requires
        s.len() == 4,
    ensures
        be_unsigned(s) <= u32::MAX,
        u32_bytes(be_unsigned(s) as u32) == s,
{
    lemma_be_unsigned_4(s);
    assert(u32_bytes(be_unsigned(s) as u32) =~= s);
}

/// Reading back the four bytes of an `[int]` in two's complement gives the
/// number.
pub proof fn lemma_i32_round_trip(v: i32)
    ensures
        i32_bytes(v).len() == 4,
        be_signed(i32_bytes(v)) == v,
        be_unsigned(i32_bytes(v)) == i32_bits(v),
        u32_signed(i32_bits(v)) == v,
{
    lemma_u32_round_trip(i32_bits(v));
    lemma_pow256_values();
}

/// Four bytes are the `[int]` of the signed number they denote.
pub proof fn lemma_i32_bytes_of_value(s: Seq<u8>)
    requires
        s.len() == 4,
    ensures
        i32::MIN <= be_signed(s) <= i32::MAX,
        be_signed(s) == u32_signed(be_unsigned(s) as u32),
        i32_bytes(be_signed(s) as i32) == s,
{
    lemma_u32_bytes_of_value(s);
    lemma_be_unsigned_4(s);
    lemma_pow256_values();
}

/// Appends the two bytes of a `[short]`.
pub fn put_u16(out: &mut Vec<u8>, v: u16)
    ensures
        final(out)@ == old(out)@ + u16_bytes(v),
{
    out.push((v / 256) as u8);
    out.push((v % 256) as u8);
    assert(out@ =~= old(out)@ + u16_bytes(v));
}

/// Appends the four bytes of an unsigned 32-bit number.
pub fn put_u32(out: &mut Vec<u8>, v: u32)
    ensures
        final(out)@ == old(out)@ + u32_bytes(v),
{
    out.push((v / 0x100_0000) as u8);
    out.push(((v / 0x1_0000) % 256) as u8);
    out.push(((v / 0x100) % 256) as u8);
    out.push((v % 256) as u8);
    assert(out@ =~= old(out)@ + u32_bytes(v));
}

/// The unsigned number with the same bits as `v`.
pub fn bits_of_i32(v: i32) -> (u: u32)
    ensures
        u == i32_bits(v),
{
    if v < 0 {
        let low: i32 = v + 0x7FFF_FFFF + 1;
        low as u32 + 0x8000_0000
    } else {
        v as u32
    }
}

/// The signed number with the same bits as `u`.
pub fn signed_of_u32(u: u32) -> (v: i32)
    ensures
        v == u32_signed(u),
{
    if u >= 0x8000_0000 {
        let low: u32 = u - 0x8000_0000;
        low as i32 - 0x7FFF_FFFF - 1
    } else {
        u as i32
    }
}

/// Appends the four bytes of an `[int]`.
pub fn put_i32(out: &mut Vec<u8>, v: i32)
    ensures
        final(out)@ == old(out)@ + i32_bytes(v),
{
    put_u32(out, bits_of_i32(v));
}

/// Reads the `[short]` that starts at `at`.
pub fn get_u16(bytes: &[u8], at: usize) -> (v: u16)
    requires
        at + 2 <= bytes@.len(),
    ensures
        v == be_unsigned(bytes@.subrange(at as int, at + 2)),
        u16_bytes(v) == bytes@.subrange(at as int, at + 2),
{
    let hi: u16 = bytes[at] as u16;
    let lo: u16 = bytes[at + 1] as u16;
    proof {
        lemma_u16_bytes_of_value(bytes@.subrange(at as int, at + 2));
        lemma_be_unsigned_2(bytes@.subrange(at as int, at + 2));
    }
    hi * 256 + lo
}

/// Reads the unsigned 32-bit number that starts at `at`.
pub fn get_u32(bytes: &[u8], at: usize) -> (v: u32)
    requires
        at + 4 <= bytes@.len(),
    ensures
        v == be_unsigned(bytes@.subrange(at as int, at + 4)),
        u32_bytes(v) == bytes@.subrange(at as int, at + 4),
{
    let b0: u32 = bytes[at] as u32;
    let b1: u32 = bytes[at + 1] as u32;
    let b2: u32 = bytes[at + 2] as u32;
    let b3: u32 = bytes[at + 3] as u32;
    proof {
        lemma_u32_bytes_of_value(bytes@.subrange(at as int, at + 4));
        lemma_be_unsigned_4(bytes@.subrange(at as int, at + 4));
    }
    b0 * 0x100_0000 + b1 * 0x1_0000 + b2 * 0x100 + b3
}

/// Reads the `[int]` that starts at `at`.
pub fn get_i32(bytes: &[u8], at: usize) -> (v: i32)
    requires
        at + 4 <= bytes@.len(),
    ensures
        v == be_signed(bytes@.subrange(at as int, at + 4)),
        i32_bytes(v) == bytes@.subrange(at as int, at + 4),
{
    let u: u32 = get_u32(bytes, at);
    proof {
        lemma_i32_bytes_of_value(bytes@.subrange(at as int, at + 4));
    }
    signed_of_u32(u)
}

/// A copy of the bytes from `from` up to `to`.
pub fn copy_range(bytes: &[u8], from: usize, to: usize) -> (r: Vec<u8>)
    requires
        from <= to <= bytes@.len(),
    ensures
        r@ == bytes@.subrange(from as int, to as int),
{
    let mut r: Vec<u8> = Vec::new();
    let mut i: usize = from;
    while i < to
        invariant
            from <= i <= to <= bytes@.len(),
            r@ == bytes@.subrange(from as int, i as int),
        decreases to - i,
    {
        r.push(bytes[i]);
        i = i + 1;
        assert(r@ =~= bytes@.subrange(from as int, i as int));
    }
    r
}

/// Appends every byte of `bytes`.
pub fn put_bytes(out: &mut Vec<u8>, bytes: &[u8])
    ensures
        final(out)@ == old(out)@ + bytes@,
{
    let mut i: usize = 0;
    while i < bytes.len()
        invariant
            i <= bytes@.len(),
            out@ == old(out)@ + bytes@.subrange(0, i as int),
        decreases bytes@.len() - i,
    {
        out.push(bytes[i]);
        i = i + 1;
        assert(out@ =~= old(out)@ + bytes@.subrange(0, i as int));
    }
    assert(bytes@.subrange(0, bytes@.len() as int) =~= bytes@);
}

} // verus!
