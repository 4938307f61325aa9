//! The checksum used by the companion tools: the reflected 32-bit cyclic
//! redundancy check, computed byte by byte with eight single-bit rounds per
//! byte instead of a precomputed table.
use vstd::prelude::*;

verus! {

/// One single-bit round: shift right and fold the generator polynomial in
/// when the low bit was set.
pub open spec fn spec_crc_bit_step(v: u32) -> u32 {
    if v % 2 == 1 {
        (v / 2) ^ 0xedb88320
    } else {
        v / 2
    }
}

/// `n` single-bit rounds applied to `v`.
pub open spec fn spec_crc_rounds(v: u32, n: nat) -> u32
    decreases n,
{
    if n == 0 {
        v
    } else {
        spec_crc_rounds(spec_crc_bit_step(v), (n - 1) as nat)
    }
}

/// Fold one byte into the running value: eight bit rounds on the mixed low
/// byte, combined with the shifted-out high bytes.
pub open spec fn spec_crc_byte(v: u32, b: u8) -> u32 {
    spec_crc_rounds((((v % 256) as u8) ^ b) as u32, 8) ^ (v / 256)
}

/// Fold a byte sequence into the running value, front to back.
pub open spec fn spec_crc_fold(v: u32, s: Seq<u8>) -> u32
    decreases s.len(),
{
    if s.len() == 0 {
        v
    } else {
        spec_crc_fold(spec_crc_byte(v, s[0]), s.drop_first())
    }
}

/// The published value after feeding `s` into a checksum that stood at `v`:
/// the running value is kept inverted while folding.
pub open spec fn spec_crc_update(v: u32, s: Seq<u8>) -> u32 {
    !spec_crc_fold(!v, s)
}

proof fn lemma_crc_rounds_unfold(v: u32, n: nat)
    ensures
        spec_crc_rounds(v, n + 1) == spec_crc_bit_step(spec_crc_rounds(v, n)),
    decreases n,
{
    reveal_with_fuel(spec_crc_rounds, 2);
    if n > 0 {
        lemma_crc_rounds_unfold(spec_crc_bit_step(v), (n - 1) as nat);
    }
}

/// A running 32-bit checksum.
pub struct Crc32 {
    value: u32,
}

impl Crc32 {
    /// The published value so far.
    pub closed spec fn spec_value(&self) -> u32 {
        self.value
    }

    /// A fresh checksum; its published value is zero.
    pub fn new() -> (r: Crc32)
        ensures
            r.spec_value() == 0,
    {
        Crc32 { value: 0 }
    }

    /// Forget everything fed so far.
    pub fn reset(&mut self)
        ensures
            final(self).spec_value() == 0,
    {
        self.value = 0
    }

    /// Feed `bytes` into the checksum.
    pub fn update(&mut self, bytes: &[u8])
        ensures
            final(self).spec_value() == spec_crc_update(old(self).spec_value(), bytes@),
    {
        let n = bytes.len();
        let mut value: u32 = !self.value;
        let mut i: usize = 0;
        proof {
            assert(bytes@.skip(0) =~= bytes@);
        }
        while i < n
            invariant
                i <= n,
                n == bytes@.len(),
                spec_crc_fold(!old(self).spec_value(), bytes@) == spec_crc_fold(
                    value,
                    bytes@.skip(i as int),
                ),
            decreases n - i,
        {
            let b: u8 = *vstd::slice::slice_index_get(bytes, i);
            let mut t: u32 = (((value % 256) as u8) ^ b) as u32;
            let mut k: usize = 0;
            while k < 8
                invariant
                    k <= 8,
                    t == spec_crc_rounds((((value % 256) as u8) ^ b) as u32, k as nat),
                decreases 8 - k,
            {
                proof {
                    lemma_crc_rounds_unfold((((value % 256) as u8) ^ b) as u32, k as nat);
                }
                t = if t % 2 == 1 {
                    (t / 2) ^ 0xedb88320
                } else {
                    t / 2
                };
                k = k + 1;
            }
            proof {
                assert(bytes@.skip(i as int)[0] == bytes@[i as int]);
                assert(bytes@.skip(i as int).drop_first() =~= bytes@.skip(i + 1));
            }
            value = t ^ (value / 256);
            i = i + 1;
        }
        proof {
            assert(bytes@.skip(n as int) =~= Seq::<u8>::empty());
        }
        self.value = !value;
    }

    /// The published value.
    pub fn finish(&self) -> (r: u32)
        ensures
            r == self.spec_value(),
    {
        self.value
    }
}

} // verus!
