//! Sample words: the 32-bit little-endian float bit patterns that the
//! pipeline moves around.
//!
//! The transport never does arithmetic on audio — it only copies, widens
//! and reorders samples — so a sample is carried as the `u32` holding its
//! IEEE 754 single-precision bit pattern.  The one numeric conversion the
//! normalizer performs, 16-bit PCM to float at `value / 32768`, is exact
//! in single precision, and is computed here directly on bit patterns.

use vstd::prelude::*;

use vstd::arithmetic::power2::lemma2_to64;
use vstd::arithmetic::power2::lemma_pow2_adds;
use vstd::arithmetic::power2::lemma_pow2_pos;
use vstd::arithmetic::power2::lemma_pow2_strictly_increases;
use vstd::arithmetic::power2::lemma_pow2_unfold;
use vstd::arithmetic::power2::pow2;
use vstd::arithmetic::div_mod::lemma_fundamental_div_mod_converse;
use vstd::arithmetic::div_mod::lemma_mod_add_multiples_vanish;
use vstd::arithmetic::div_mod::lemma_small_mod;
use vstd::arithmetic::mul::lemma_mul_inequality;
use vstd::arithmetic::mul::lemma_mul_strict_inequality;
use vstd::bytes::spec_u32_to_le_bytes;
use vstd::bytes::u32_to_le_bytes;

verus! {

/// Position of the highest set bit of `m`, for `m >= 1`: the floor of the
/// base-2 logarithm.
pub open spec fn spec_ilog2(m: nat) -> nat
    decreases m,
{
    if m < 2 {
        0
    } else {
        1 + spec_ilog2(m / 2)
    }
}

/// The defining bounds of the base-2 logarithm: `m` lies between
/// consecutive powers of two.
pub proof fn lemma_ilog2_bounds(m: nat)
    requires
        1 <= m,
    ensures
        pow2(spec_ilog2(m)) <= m,
        m < pow2(spec_ilog2(m) + 1),
    decreases m,
{
    if m < 2 {
        lemma2_to64();
    } else {
        lemma_ilog2_bounds(m / 2);
        lemma_pow2_unfold(spec_ilog2(m) + 1);
        lemma_pow2_unfold(spec_ilog2(m));
    }
}

/// The IEEE 754 single-precision bit pattern of `v / 32768` for a 16-bit
/// PCM sample `v`.  Every such quotient is exact in single precision: the
/// significand of `v` has at most 15 bits and the smallest magnitude,
/// `1 / 32768`, is far above the subnormal range.
pub open spec fn spec_s16_bits(v: int) -> u32 {
    if v == 0 {
        0u32
    } else {
        let m = if v < 0 {
            -v
        } else {
            v
        };
        let e = spec_ilog2(m as nat);
        let sign: int = if v < 0 {
            0x8000_0000
        } else {
            0
        };
        (sign + (e + 112) * 0x0080_0000 + (m - pow2(e)) * pow2((23 - e) as nat)) as u32
    }
}

/// The biased exponent field of a sample bit pattern.
pub open spec fn spec_exponent_field(bits: u32) -> nat {
    ((bits / 0x0080_0000) % 0x100) as nat
}

/// 2 to the power `e`, as a machine word.
fn pow2_u32(e: u32) -> (r: u32)
    requires
        e <= 31,
    ensures
        r as nat == pow2(e as nat),
{
    let mut r: u32 = 1;
    let mut i: u32 = 0;
    proof {
        lemma2_to64();
    }
    while i < e
        invariant
            i <= e <= 31,
            r as nat == pow2(i as nat),
        decreases e - i,
    {
        proof {
            lemma_pow2_unfold(i as nat + 1);
            if i as nat + 1 < 31 {
                lemma_pow2_strictly_increases(i as nat + 1, 31);
            }
            lemma2_to64();
        }
        r = r * 2;
        i = i + 1;
    }
    r
}

/// Converts one 16-bit PCM sample to the bit pattern of `v / 32768`,
/// the normalizer's exact mapping of PCM onto the unit range.
pub fn s16_to_sample_bits(v: i16) -> (bits: u32)
    ensures
        bits == spec_s16_bits(v as int),
{
    if v == 0 {
        return 0;
    }
    let sign: u32 = if v < 0 {
        0x8000_0000
    } else {
        0
    };
    let m: u32 = if v < 0 {
        (-(v as i32)) as u32
    } else {
        v as u32
    };
    assert(1 <= m <= 32768);
    proof {
        lemma_ilog2_bounds(m as nat);
        lemma2_to64();
        if spec_ilog2(m as nat) > 15 {
            lemma_pow2_strictly_increases(15, spec_ilog2(m as nat));
        }
    }
    let ghost ge = spec_ilog2(m as nat);
    assert(ge <= 15);
    let mut e: u32 = 0;
    let mut t: u32 = m;
    while t >= 2
        invariant
            1 <= t,
            spec_ilog2(m as nat) == e + spec_ilog2(t as nat),
            spec_ilog2(m as nat) <= 15,
        decreases t,
    {
        t = t / 2;
        e = e + 1;
    }
    assert(e == ge);
    let p_low = pow2_u32(e);
    let p_high = pow2_u32(23 - e);
    proof {
        lemma_pow2_adds(e as nat, (23 - e) as nat);
        lemma_pow2_pos((23 - e) as nat);
        assert((m - p_low) < p_low) by {
            lemma_pow2_unfold(e as nat + 1);
        }
        lemma_mul_strict_inequality(m - p_low, p_low as int, p_high as int);
        assert((m - p_low) * p_high < pow2(23));
        lemma_mul_inequality(e as int + 112, 127, 0x0080_0000);
    }
    let mantissa = (m - p_low) * p_high;
    let exponent = (e + 112) * 0x0080_0000;
    let bits = sign + exponent + mantissa;
    proof {
        assert(bits == spec_s16_bits(v as int));
    }
    bits
}

/// PCM samples map into the unit range: the converted bit pattern either
/// is silence, or carries a biased exponent below 127 (a magnitude under
/// 1), or is exactly the pattern of -1 — reached only by the most negative
/// sample.  No conversion overshoots the unit range.
pub proof fn lemma_s16_bits_unit_range(v: int)
    requires
        -32768 <= v <= 32767,
    ensures
        v == 0 ==> spec_s16_bits(v) == 0,
        v != 0 ==> spec_exponent_field(spec_s16_bits(v)) <= 127,
        v != 0 && spec_exponent_field(spec_s16_bits(v)) == 127 ==> v == -32768 && spec_s16_bits(v)
            == 0xBF80_0000,
{
    if v != 0 {
        let m = if v < 0 {
            -v
        } else {
            v
        };
        let e = spec_ilog2(m as nat);
        lemma_ilog2_bounds(m as nat);
        lemma2_to64();
        if e > 15 {
            lemma_pow2_strictly_increases(15, e);
        }
        assert(e <= 15);
        let sign: int = if v < 0 {
            0x8000_0000
        } else {
            0
        };
        let mant = (m - pow2(e)) * pow2((23 - e) as nat);
        assert(mant < pow2(23)) by {
            lemma_pow2_unfold(e + 1);
            lemma_pow2_pos((23 - e) as nat);
            lemma_mul_strict_inequality(m - pow2(e), pow2(e) as int, pow2((23 - e) as nat) as int);
            lemma_pow2_adds(e, (23 - e) as nat);
        }
        assert(mant >= 0) by {
            vstd::arithmetic::mul::lemma_mul_nonnegative(m - pow2(e), pow2((23 - e) as nat) as int);
        }
        let total = sign + (e + 112) * 0x0080_0000 + mant;
        assert((e + 112) * 0x0080_0000 <= 127 * 0x0080_0000) by {
            lemma_mul_inequality((e + 112) as int, 127, 0x0080_0000);
        }
        assert(total < 0x1_0000_0000);
        assert(spec_s16_bits(v) == total);
        let carrier: int = if v < 0 {
            256
        } else {
            0
        };
        assert(total == (e + 112 + carrier) * 0x0080_0000 + mant);
        lemma_fundamental_div_mod_converse(total, 0x0080_0000, e + 112 + carrier, mant);
        assert(total / 0x0080_0000 == e + 112 + carrier);
        if v < 0 {
            lemma_mod_add_multiples_vanish((e + 112) as int, 0x100);
        }
        lemma_small_mod((e + 112) as nat, 0x100);
        assert(spec_exponent_field(total as u32) == e + 112);
        if e + 112 == 127 {
            assert(e == 15);
            assert(pow2(15) <= m < pow2(16));
            assert(m == 32768);
            assert(v == -32768);
            assert(mant == 0) by {
                assert(m - pow2(e) == 0);
                vstd::arithmetic::mul::lemma_mul_basics_1(pow2((23 - e) as nat) as int);
            }
            assert(total == 0x8000_0000 + 127 * 0x0080_0000);
        }
    }
}

/// The little-endian byte stream carrying a sequence of sample words, in
/// order: exactly what the feeder hands the encoder process.
pub open spec fn spec_samples_le_bytes(s: Seq<u32>) -> Seq<u8>
    decreases s.len(),
{
    if s.len() == 0 {
        Seq::<u8>::empty()
    } else {
        spec_samples_le_bytes(s.drop_last()) + spec_u32_to_le_bytes(s.last())
    }
}

/// Four bytes leave the feeder for every sample word it takes.
pub proof fn lemma_samples_le_bytes_len(s: Seq<u32>)
    ensures
        spec_samples_le_bytes(s).len() == 4 * s.len(),
    decreases s.len(),
{
    vstd::bytes::lemma_auto_spec_u32_to_from_le_bytes();
    if s.len() > 0 {
        lemma_samples_le_bytes_len(s.drop_last());
    }
}

/// Serializes sample words to the little-endian byte stream the encoder
/// process expects on its input pipe.
pub fn samples_to_le_bytes(samples: &Vec<u32>) -> (out: Vec<u8>)
    ensures
        out@ == spec_samples_le_bytes(samples@),
        out@.len() == 4 * samples@.len(),
{
    let mut out: Vec<u8> = Vec::new();
    let mut i: usize = 0;
    proof {
        assert(spec_samples_le_bytes(samples@.take(0)) =~= Seq::<u8>::empty());
    }
    while i < samples.len()
        invariant
            i <= samples@.len(),
            out@ == spec_samples_le_bytes(samples@.take(i as int)),
        decreases samples@.len() - i,
    {
        let word_bytes = u32_to_le_bytes(samples[i]);
        let mut j: usize = 0;
        while j < word_bytes.len()
            invariant
                j <= word_bytes@.len(),
                out@ == spec_samples_le_bytes(samples@.take(i as int)) + word_bytes@.take(
                    j as int,
                ),
            decreases word_bytes@.len() - j,
        {
            proof {
                assert(word_bytes@.take(j + 1) =~= word_bytes@.take(j as int).push(
                    word_bytes@[j as int],
                ));
            }
            out.push(word_bytes[j]);
            j = j + 1;
        }
        proof {
            assert(word_bytes@.take(word_bytes@.len() as int) =~= word_bytes@);
            assert(samples@.take(i + 1).drop_last() =~= samples@.take(i as int));
            assert(samples@.take(i + 1).last() == samples@[i as int]);
        }
        i = i + 1;
    }
    proof {
        assert(samples@.take(samples@.len() as int) =~= samples@);
        lemma_samples_le_bytes_len(samples@);
    }
    out
}

} // verus!
