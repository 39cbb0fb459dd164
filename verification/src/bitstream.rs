//! Reading little endian bit fields from a 128 bit compressed block.
use vstd::prelude::*;
use crate::bcdec::le64;

verus! {

/// The 16 bytes of a block as one little endian 128 bit number.
pub open spec fn block128(c: Seq<u8>) -> u128 {
    ((le64(c.subrange(8, 16)) as u128) << 64u128) | (le64(c) as u128)
}

/// `v` shifted right by `pos` bits, which is zero once every bit is shifted out.
pub open spec fn shr128(v: u128, pos: nat) -> u128 {
    if pos >= 128 {
        0
    } else {
        v >> (pos as u128)
    }
}

/// The `n` bits of `v` starting at bit `pos`, where bits past the end read as zero.
pub open spec fn field(v: u128, pos: nat, n: nat) -> u32 {
    (shr128(v, pos) & (((1u128 << (n as u128)) - 1u128) as u128)) as u32
}

/// A reader of consecutive bit fields, least significant bits first.
pub struct Bitstream {
    pub low: u64,
    pub high: u64,
    /// The block being read.
    pub block: Ghost<u128>,
    /// The number of bits read so far.
    pub pos: Ghost<nat>,
}

impl Bitstream {
    /// The bits that are left to read.
    pub open spec fn value(&self) -> u128 {
        ((self.high as u128) << 64u128) | (self.low as u128)
    }

    pub open spec fn wf(&self) -> bool {
        self.value() == shr128(self.block@, self.pos@)
    }

    /// A reader positioned at the first bit of the first 16 bytes of `c`.
    pub fn new(c: &[u8]) -> (r: Bitstream)
        requires
            c@.len() >= 16,
        ensures
            r.wf(),
            r.block@ == block128(c@),
            r.pos@ == 0,
    {
        let low = read_u64_at(c, 0);
        let high = read_u64_at(c, 8);
        let ghost v = block128(c@);
        assert(c@.subrange(0, 8 as int).subrange(0, 8) =~= c@.subrange(0, 8));
        proof {
            assert(((high as u128) << 64u128) | (low as u128) == (((high as u128) << 64u128) | (
            low as u128)) >> 0u128) by (bit_vector);
        }
        Bitstream { low, high, block: Ghost(v), pos: Ghost(0) }
    }

    /// Read the next `num_bits` bits.
    pub fn read_bits(&mut self, num_bits: u32) -> (r: u32)
        requires
            old(self).wf(),
            1 <= num_bits <= 32,
        ensures
            final(self).wf(),
            final(self).block@ == old(self).block@,
            final(self).pos@ == old(self).pos@ + num_bits,
            r == field(old(self).block@, old(self).pos@, num_bits as nat),
            (r as nat) < vstd::arithmetic::power2::pow2(num_bits as nat),
    {
        let ghost v = self.value();
        let ghost b = self.block@;
        let ghost p = self.pos@;
        assert((1u64 << (num_bits as u64)) >= 1u64) by (bit_vector)
            requires
                num_bits <= 32,
        ;
        let mask: u64 = (1u64 << num_bits) - 1;
        // Read the low N bits
        let bits = self.low & mask;
        let low = self.low;
        let high = self.high;
        let n = num_bits as u64;
        // Put the low N bits of "high" into the high 64-N bits of "low".
        let new_low = (low >> n) | ((high & mask) << (64 - n));
        let new_high = high >> n;
        self.low = new_low;
        self.high = new_high;
        proof {
            assert(((((new_high as u128) << 64u128) | (new_low as u128)) == (((high as u128)
                << 64u128) | (low as u128)) >> (n as u128)) && (bits as u128 == ((((high as u128)
                << 64u128) | (low as u128)) & (((1u128 << (n as u128)) - 1u128) as u128))) && bits < (1u64
                << n) && bits <= 0xFFFF_FFFFu64) by (bit_vector)
                requires
                    1 <= n <= 32,
                    mask == (((1u64 << n) - 1u64) as u64),
                    bits == low & mask,
                    new_low == (low >> n) | ((high & mask) << ((64u64 - n) as u64)),
                    new_high == high >> n,
            ;
            vstd::bits::lemma_u64_pow2_no_overflow(n as nat);
            vstd::bits::lemma_u64_shl_is_mul(1u64, n);
            lemma_shr128_add(b, p, num_bits as nat);
            self.pos = Ghost((p + num_bits) as nat);
        }
        bits as u32
    }

    /// Read the next bit.
    pub fn read_bit(&mut self) -> (r: u32)
        requires
            old(self).wf(),
        ensures
            final(self).wf(),
            final(self).block@ == old(self).block@,
            final(self).pos@ == old(self).pos@ + 1,
            r == field(old(self).block@, old(self).pos@, 1),
            r < 2,
    {
        proof {
            vstd::arithmetic::power2::lemma2_to64();
        }
        self.read_bits(1)
    }

    /// Read the next `num_bits` bits and reverse their order.
    pub fn read_bits_r(&mut self, num_bits: u32) -> (r: u32)
        requires
            old(self).wf(),
            1 <= num_bits <= 16,
        ensures
            final(self).wf(),
            final(self).block@ == old(self).block@,
            final(self).pos@ == old(self).pos@ + num_bits,
            r == reverse_bits(0, field(old(self).block@, old(self).pos@, num_bits as nat), num_bits as nat),
            (r as nat) < vstd::arithmetic::power2::pow2(num_bits as nat),
    {
        let bits0 = self.read_bits(num_bits);
        let mut bits = bits0;
        // Reverse the bits.
        let mut result: u32 = 0;
        let mut i: u32 = 0;
        assert(0u32 < (1u32 << 0u32)) by (bit_vector);
        while i < num_bits
            invariant
                i <= num_bits <= 16,
                result < (1u32 << i),
                reverse_bits(result, bits, (num_bits - i) as nat) == reverse_bits(0, bits0, num_bits as nat),
            decreases num_bits - i,
        {
            assert(((result << 1u32) | (bits & 1u32)) < (1u32 << (i + 1))) by (bit_vector)
                requires
                    i < 16,
                    result < (1u32 << i),
            ;
            result = (result << 1) | (bits & 1);
            bits = bits >> 1;
            i = i + 1;
        }
        proof {
            vstd::bits::lemma_u32_pow2_no_overflow(num_bits as nat);
            vstd::bits::lemma_u32_shl_is_mul(1u32, num_bits);
        }
        result
    }
}

/// `acc` followed by the lowest `n` bits of `x` in reverse order.
pub open spec fn reverse_bits(acc: u32, x: u32, n: nat) -> u32
    decreases n,
{
    if n == 0 {
        acc
    } else {
        reverse_bits((acc << 1u32) | (x & 1u32), x >> 1u32, (n - 1) as nat)
    }
}

/// Shifting out `n` more bits after `pos` bits.
proof fn lemma_shr128_add(v: u128, pos: nat, n: nat)
    requires
        n <= 32,
    ensures
        shr128(v, pos) >> (n as u128) == shr128(v, pos + n),
{
    if pos >= 128 {
        let m = n as u128;
        assert(0u128 >> m == 0u128) by (bit_vector);
    } else if pos + n >= 128 {
        let p = pos as u128;
        let m = n as u128;
        assert((v >> p) >> m == 0u128) by (bit_vector)
            requires
                p < 128,
                m <= 32,
                p + m >= 128,
        ;
    } else {
        let p = pos as u128;
        let m = n as u128;
        vstd::bits::lemma_u128_shr_is_div(v, p);
        vstd::bits::lemma_u128_shr_is_div(v >> p, m);
        vstd::bits::lemma_u128_shr_is_div(v, (p + m) as u128);
        vstd::arithmetic::power2::lemma_pow2_pos(pos);
        vstd::arithmetic::power2::lemma_pow2_pos(n);
        vstd::arithmetic::power2::lemma_pow2_adds(pos, n);
        vstd::arithmetic::div_mod::lemma_div_denominator(
            v as int,
            vstd::arithmetic::power2::pow2(pos) as int,
            vstd::arithmetic::power2::pow2(n) as int,
        );
    }
}

fn read_u64_at(c: &[u8], start: usize) -> (r: u64)
    requires
        start + 8 <= c@.len(),
    ensures
        r == le64(c@.subrange(start as int, start + 8)),
{
    (c[start] as u64) | ((c[start + 1] as u64) << 8u64) | ((c[start + 2] as u64) << 16u64) | ((
    c[start + 3] as u64) << 24u64) | ((c[start + 4] as u64) << 32u64) | ((c[start + 5] as u64)
        << 40u64) | ((c[start + 6] as u64) << 48u64) | ((c[start + 7] as u64) << 56u64)
}

} // verus!
