//! Helper functions for common mathematical operations.
use vstd::arithmetic::power2::{lemma2_to64, lemma_pow2_unfold, pow2};
use vstd::prelude::*;

verus! {

/// Get the closest power of two that is not less than the given number.
pub fn closest_power_of_two(num: u32) -> (result: u32)
    requires
        1 <= num <= 0x8000_0000,
    ensures
        num <= result < 2 * num,
        exists|k: nat| result == #[trigger] pow2(k),
{
    let mut result: u32 = 1;
    let ghost mut k: nat = 0;
    proof {
        lemma2_to64();
    }
    while result < num
        invariant
            1 <= num <= 0x8000_0000,
            1 <= result < 2 * num,
            result == pow2(k),
        decreases 2 * num - result,
    {
        proof {
            lemma_pow2_unfold(k + 1);
            k = k + 1;
        }
        result = result * 2;
    }
    result
}

/// Log base 2 of 32 bit unsigned integers, rounded down; 0 for 0.
pub fn log_base_two(num: u32) -> (result: u32)
    ensures
        result < 32,
        num == 0 ==> result == 0,
        num > 0 ==> pow2(result as nat) <= num < pow2((result + 1) as nat),
{
    let mut result: u32 = 0;
    let mut rest: u32 = num;
    proof {
        lemma2_to64();
    }
    while rest > 1
        invariant
            result < 32,
            num == 0 ==> result == 0 && rest == 0,
            num > 0 ==> rest * pow2(result as nat) <= num < (rest + 1) * pow2(result as nat) && rest
                >= 1,
            rest < pow2((32 - result) as nat),
        decreases rest,
    {
        let half: u32 = rest / 2;
        proof {
            let p = pow2(result as nat);
            lemma_pow2_unfold((result + 1) as nat);
            lemma_pow2_unfold((32 - result) as nat);
            if result == 31 {
                lemma2_to64();
            }
            assert(half * (2 * p) <= rest * p && (rest + 1) * p <= (half + 1) * (2 * p))
                by (nonlinear_arith)
                requires
                    2 * half <= rest <= 2 * half + 1,
                    p >= 0,
            ;
        }
        rest = half;
        result = result + 1;
    }
    proof {
        lemma_pow2_unfold((result + 1) as nat);
        if num > 0 {
            assert(1 * pow2(result as nat) == pow2(result as nat));
        }
    }
    result
}

} // verus!
