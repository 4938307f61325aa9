//! Big-endian integer fields of the container format.
//!
//! Every multi-byte integer in the container is stored most significant byte
//! first. The spec functions give the value of such a field and the byte
//! sequence that a value is stored as; the executable functions read and
//! append those fields on byte buffers.
use vstd::prelude::*;

verus! {

/// Value of a 2-byte big-endian field.
pub open spec fn spec_u16_be(s: Seq<u8>) -> int
    recommends
        s.len() >= 2,
{
    s[0] * 0x100 + s[1]
}

/// Value of a 3-byte big-endian field.
pub open spec fn spec_u24_be(s: Seq<u8>) -> int
    recommends
        s.len() >= 3,
{
    s[0] * 0x10000 + s[1] * 0x100 + s[2]
}

/// Value of a 4-byte big-endian field.
pub open spec fn spec_u32_be(s: Seq<u8>) -> int
    recommends
        s.len() >= 4,
{
    s[0] * 0x1000000 + s[1] * 0x10000 + s[2] * 0x100 + s[3]
}

/// Value of an 8-byte big-endian field.
pub open spec fn spec_u64_be(s: Seq<u8>) -> int
    recommends
        s.len() >= 8,
{
    s[0] * 0x100000000000000 + s[1] * 0x1000000000000 + s[2] * 0x10000000000
        + s[3] * 0x100000000 + s[4] * 0x1000000 + s[5] * 0x10000 + s[6] * 0x100 + s[7]
}

/// The 2 bytes that store `v` big-endian.
pub open spec fn spec_u16_bytes(v: int) -> Seq<u8> {
    seq![((v / 0x100) % 0x100) as u8, (v % 0x100) as u8]
}

/// The 3 bytes that store `v` big-endian.
pub open spec fn spec_u24_bytes(v: int) -> Seq<u8> {
    seq![((v / 0x10000) % 0x100) as u8, ((v / 0x100) % 0x100) as u8, (v % 0x100) as u8]
}

/// The 4 bytes that store `v` big-endian.
pub open spec fn spec_u32_bytes(v: int) -> Seq<u8> {
    seq![
        ((v / 0x1000000) % 0x100) as u8,
        ((v / 0x10000) % 0x100) as u8,
        ((v / 0x100) % 0x100) as u8,
        (v % 0x100) as u8,
    ]
}

/// The 8 bytes that store `v` big-endian.
pub open spec fn spec_u64_bytes(v: int) -> Seq<u8> {
    seq![
        ((v / 0x100000000000000) % 0x100) as u8,
        ((v / 0x1000000000000) % 0x100) as u8,
        ((v / 0x10000000000) % 0x100) as u8,
        ((v / 0x100000000) % 0x100) as u8,
        ((v / 0x1000000) % 0x100) as u8,
        ((v / 0x10000) % 0x100) as u8,
        ((v / 0x100) % 0x100) as u8,
        (v % 0x100) as u8,
    ]
}

/// Storing a 16-bit value and reading the field back is the identity.
pub proof fn lemma_u16_round_trip(v: int)
    requires
        0 <= v < 0x10000,
    ensures
        spec_u16_be(spec_u16_bytes(v)) == v,
{
}

/// Storing a 24-bit value and reading the field back is the identity.
pub proof fn lemma_u24_round_trip(v: int)
    requires
        0 <= v < 0x1000000,
    ensures
        spec_u24_be(spec_u24_bytes(v)) == v,
{
}

/// Storing a 32-bit value and reading the field back is the identity.
pub proof fn lemma_u32_round_trip(v: int)
    requires
        0 <= v < 0x100000000,
    ensures
        spec_u32_be(spec_u32_bytes(v)) == v,
{
    let w = v as u32;
    assert(((w / 0x1000000) % 0x100) * 0x1000000 + ((w / 0x10000) % 0x100) * 0x10000 + ((w
        / 0x100) % 0x100) * 0x100 + (w % 0x100) == w) by (bit_vector);
}

/// Storing a 64-bit value and reading the field back is the identity.
pub proof fn lemma_u64_round_trip(v: int)
    requires
        0 <= v < 0x10000000000000000,
    ensures
        spec_u64_be(spec_u64_bytes(v)) == v,
{
    let w = v as u64;
    assert(((w / 0x100000000000000) % 0x100) * 0x100000000000000 + ((w / 0x1000000000000)
        % 0x100) * 0x1000000000000 + ((w / 0x10000000000) % 0x100) * 0x10000000000 + ((w
        / 0x100000000) % 0x100) * 0x100000000 + ((w / 0x1000000) % 0x100) * 0x1000000 + ((w
        / 0x10000) % 0x100) * 0x10000 + ((w / 0x100) % 0x100) * 0x100 + (w % 0x100) == w)
        by (bit_vector);
}

/// Reading a 2-byte field and storing the value back reproduces the bytes.
pub proof fn lemma_u16_bytes_exact(s: Seq<u8>)
    requires
        s.len() == 2,
    ensures
        spec_u16_bytes(spec_u16_be(s)) =~= s,
{
}

/// Reading a 4-byte field and storing the value back reproduces the bytes.
pub proof fn lemma_u32_bytes_exact(s: Seq<u8>)
    requires
        s.len() == 4,
    ensures
        spec_u32_bytes(spec_u32_be(s)) =~= s,
{
    let a = s[0];
    let b = s[1];
    let c = s[2];
    let d = s[3];
    assert((((a as u32) * 0x1000000 + (b as u32) * 0x10000 + (c as u32) * 0x100 + (d as u32))
        / 0x1000000) % 0x100 == a as u32 && (((a as u32) * 0x1000000 + (b as u32) * 0x10000 + (c
        as u32) * 0x100 + (d as u32)) / 0x10000) % 0x100 == b as u32 && (((a as u32) * 0x1000000 + (
    b as u32) * 0x10000 + (c as u32) * 0x100 + (d as u32)) / 0x100) % 0x100 == c as u32 && ((a
        as u32) * 0x1000000 + (b as u32) * 0x10000 + (c as u32) * 0x100 + (d as u32)) % 0x100 == d
        as u32) by (bit_vector);
    assert(spec_u32_be(s) == (a as u32) * 0x1000000 + (b as u32) * 0x10000 + (c as u32) * 0x100 + (
    d as u32));
}

/// Read a 2-byte big-endian field at `pos`.
pub fn read_u16_be(data: &Vec<u8>, pos: usize) -> (r: u16)
    requires
        pos + 2 <= data.len(),
    ensures
        r == spec_u16_be(data@.subrange(pos as int, pos + 2)),
{
    let r = (data[pos] as u16) * 0x100 + (data[pos + 1] as u16);
    proof {
        let s = data@.subrange(pos as int, pos + 2);
        assert(s[0] == data@[pos as int] && s[1] == data@[pos + 1]);
    }
    r
}

/// Read a 3-byte big-endian field at `pos`.
pub fn read_u24_be(data: &Vec<u8>, pos: usize) -> (r: u32)
    requires
        pos + 3 <= data.len(),
    ensures
        r == spec_u24_be(data@.subrange(pos as int, pos + 3)),
        r < 0x1000000,
{
    let r = (data[pos] as u32) * 0x10000 + (data[pos + 1] as u32) * 0x100 + (data[pos + 2] as u32);
    proof {
        let s = data@.subrange(pos as int, pos + 3);
        assert(s[0] == data@[pos as int] && s[1] == data@[pos + 1] && s[2] == data@[pos + 2]);
    }
    r
}

/// Read a 4-byte big-endian field at `pos`.
pub fn read_u32_be(data: &Vec<u8>, pos: usize) -> (r: u32)
    requires
        pos + 4 <= data.len(),
    ensures
        r == spec_u32_be(data@.subrange(pos as int, pos + 4)),
{
    let r = (data[pos] as u32) * 0x1000000 + (data[pos + 1] as u32) * 0x10000
        + (data[pos + 2] as u32) * 0x100 + (data[pos + 3] as u32);
    proof {
        let s = data@.subrange(pos as int, pos + 4);
        assert(s[0] == data@[pos as int] && s[1] == data@[pos + 1] && s[2] == data@[pos + 2]
            && s[3] == data@[pos + 3]);
    }
    r
}

/// Read an 8-byte big-endian field at `pos`.
pub fn read_u64_be(data: &Vec<u8>, pos: usize) -> (r: u64)
    requires
        pos + 8 <= data.len(),
    ensures
        r == spec_u64_be(data@.subrange(pos as int, pos + 8)),
{
    let mut r: u64 = 0;
    let mut i: usize = 0;
    while i < 8
        invariant
            i <= 8,
            pos + 8 <= data.len(),
            r < pow256(i as nat),
            r == spec_u64_be_prefix(data@.subrange(pos as int, pos + 8), i as nat),
        decreases 8 - i,
    {
        proof {
            let s = data@.subrange(pos as int, pos + 8);
            assert(s[i as int] == data@[pos + i]);
            lemma_pow256_monotonic(i as nat);
        }
        r = r * 0x100 + (data[pos + i] as u64);
        i = i + 1;
    }
    proof {
        lemma_u64_prefix_full(data@.subrange(pos as int, pos + 8));
    }
    r
}

/// 256 to the power `n`.
pub open spec fn pow256(n: nat) -> int
    decreases n,
{
    if n == 0 {
        1
    } else {
        0x100 * pow256((n - 1) as nat)
    }
}

proof fn lemma_pow256_monotonic(i: nat)
    requires
        i <= 7,
    ensures
        0x100 * pow256(i) <= 0x10000000000000000,
{
    reveal_with_fuel(pow256, 9);
}

/// Value of the first `n` bytes of an 8-byte big-endian field.
pub open spec fn spec_u64_be_prefix(s: Seq<u8>, n: nat) -> int
    recommends
        n <= s.len(),
    decreases n,
{
    if n == 0 {
        0
    } else {
        spec_u64_be_prefix(s, (n - 1) as nat) * 0x100 + s[n - 1]
    }
}

proof fn lemma_u64_prefix_full(s: Seq<u8>)
    requires
        s.len() == 8,
    ensures
        spec_u64_be_prefix(s, 8) == spec_u64_be(s),
{
    reveal_with_fuel(spec_u64_be_prefix, 9);
}

/// Append a 2-byte big-endian field storing `v`.
pub fn push_u16_be(out: &mut Vec<u8>, v: u16)
    ensures
        final(out)@ == old(out)@ + spec_u16_bytes(v as int),
{
    out.push((v / 0x100) as u8);
    out.push((v % 0x100) as u8);
    proof {
        assert(final(out)@ =~= old(out)@ + spec_u16_bytes(v as int));
    }
}

/// Append a 3-byte big-endian field storing `v`.
pub fn push_u24_be(out: &mut Vec<u8>, v: u32)
    requires
        v < 0x1000000,
    ensures
        final(out)@ == old(out)@ + spec_u24_bytes(v as int),
{
    out.push((v / 0x10000) as u8);
    out.push(((v / 0x100) % 0x100) as u8);
    out.push((v % 0x100) as u8);
    proof {
        assert(final(out)@ =~= old(out)@ + spec_u24_bytes(v as int));
    }
}

/// Append a 4-byte big-endian field storing `v`.
pub fn push_u32_be(out: &mut Vec<u8>, v: u32)
    ensures
        final(out)@ == old(out)@ + spec_u32_bytes(v as int),
{
    out.push((v / 0x1000000) as u8);
    out.push(((v / 0x10000) % 0x100) as u8);
    out.push(((v / 0x100) % 0x100) as u8);
    out.push((v % 0x100) as u8);
    proof {
        assert(final(out)@ =~= old(out)@ + spec_u32_bytes(v as int));
    }
}

/// Append an 8-byte big-endian field storing `v`.
pub fn push_u64_be(out: &mut Vec<u8>, v: u64)
    ensures
        final(out)@ == old(out)@ + spec_u64_bytes(v as int),
{
    out.push((v / 0x100000000000000) as u8);
    out.push(((v / 0x1000000000000) % 0x100) as u8);
    out.push(((v / 0x10000000000) % 0x100) as u8);
    out.push(((v / 0x100000000) % 0x100) as u8);
    out.push(((v / 0x1000000) % 0x100) as u8);
    out.push(((v / 0x10000) % 0x100) as u8);
    out.push(((v / 0x100) % 0x100) as u8);
    out.push((v % 0x100) as u8);
    proof {
        assert(final(out)@ =~= old(out)@ + spec_u64_bytes(v as int));
    }
}

} // verus!
