//! Bit counting and bit packing shared by the perceptual hashes.

use vstd::prelude::*;

verus! {

/// Number of one bits in the binary representation of `x`.
pub open spec fn popcount(x: nat) -> nat
    decreases x,
{
    if x == 0 {
        0
    } else {
        (x % 2) + popcount(x / 2)
    }
}

/// Counts the one bits of `x`.
pub fn count_ones(x: u64) -> (n: u32)
    ensures
        n == popcount(x as nat),
        n <= 64,
{
    let mut rest: u64 = x;
    let mut n: u32 = 0;
    let mut steps: u32 = 0;
    proof {
        vstd::arithmetic::power2::lemma2_to64();
        vstd::arithmetic::power2::lemma2_to64_rest();
    }
    while rest != 0
        invariant
            steps <= 64,
            n <= steps,
            n + popcount(rest as nat) == popcount(x as nat),
            (rest as nat) < vstd::arithmetic::power2::pow2((64 - steps) as nat),
        decreases rest,
    {
        proof {
            vstd::arithmetic::power2::lemma2_to64();
            if steps < 64 {
                vstd::arithmetic::power2::lemma_pow2_unfold((64 - steps) as nat);
            }
        }
        n = n + (rest % 2) as u32;
        rest = rest / 2;
        steps = steps + 1;
    }
    n
}

/// Hamming distance: the number of bit positions in which `a` and `b` differ.
pub open spec fn hamming(a: u64, b: u64) -> nat {
    popcount((a ^ b) as nat)
}

/// Computes the Hamming distance of two 64-bit hashes.
pub fn hamming_distance(a: u64, b: u64) -> (d: u32)
    ensures
        d == hamming(a, b),
        d <= 64,
{
    count_ones(a ^ b)
}

/// The number whose bit `i` is one exactly where `flags[i]` holds.
pub open spec fn pack_bits(flags: Seq<bool>) -> nat
    decreases flags.len(),
{
    if flags.len() == 0 {
        0
    } else {
        pack_bits(flags.drop_last()) + if flags.last() {
            vstd::arithmetic::power2::pow2((flags.len() - 1) as nat)
        } else {
            0
        }
    }
}

/// Packs up to 64 flags into a word, flag `i` into bit `i`.
pub fn pack_flags(flags: &Vec<bool>) -> (word: u64)
    requires
        flags.len() <= 64,
    ensures
        word == pack_bits(flags@),
        word < vstd::arithmetic::power2::pow2(flags@.len()),
{
    let mut word: u64 = 0;
    let mut bit: u64 = 1;
    let mut i: usize = 0;
    proof {
        vstd::arithmetic::power2::lemma2_to64();
        assert(flags@.take(0) =~= Seq::<bool>::empty());
    }
    while i < flags.len()
        invariant
            i <= flags.len() <= 64,
            word == pack_bits(flags@.take(i as int)),
            word < vstd::arithmetic::power2::pow2(i as nat),
            i < 64 ==> bit == vstd::arithmetic::power2::pow2(i as nat),
        decreases flags.len() - i,
    {
        proof {
            vstd::arithmetic::power2::lemma2_to64();
            vstd::arithmetic::power2::lemma2_to64_rest();
            vstd::arithmetic::power2::lemma_pow2_unfold((i + 1) as nat);
            vstd::arithmetic::power2::lemma_pow2_strictly_increases(i as nat, 64);
            if i + 1 < 64 {
                vstd::arithmetic::power2::lemma_pow2_strictly_increases((i + 1) as nat, 64);
            }
            assert(flags@.take(i + 1).drop_last() =~= flags@.take(i as int));
            assert(flags@.take(i + 1).last() == flags@[i as int]);
        }
        if flags[i] {
            word = word + bit;
        }
        if i < 63 {
            bit = bit * 2;
        }
        i = i + 1;
    }
    proof {
        assert(flags@.take(i as int) =~= flags@);
    }
    word
}

} // verus!
