use vstd::arithmetic::power2::*;
use vstd::prelude::*;

verus! {

/// `2^k` as a machine integer.
pub fn pow_two(k: u32) -> (r: u64)
    requires
        k < 64,
    ensures
        r as int == pow2(k as nat),
{
    let mut r: u64 = 1;
    let mut i: u32 = 0;
    proof {
        lemma2_to64();
        lemma2_to64_rest();
    }
    while i < k
        invariant
            i <= k < 64,
            r as int == pow2(i as nat),
            pow2(63) == 0x8000000000000000,
        decreases k - i,
    {
        proof {
            lemma_pow2_unfold((i + 1) as nat);
            if i + 1 < 63 {
                lemma_pow2_strictly_increases((i + 1) as nat, 63);
            }
        }
        r = r * 2;
        i = i + 1;
    }
    r
}

/// Floor division of a signed numerator by a positive denominator.
pub fn floor_div(n: i128, d: i128) -> (r: i128)
    requires
        d > 0,
        n > i128::MIN,
    ensures
        r as int == n as int / d as int,
{
    if n >= 0 {
        ((n as u128) / (d as u128)) as i128
    } else {
        let m: u128 = (-n) as u128;
        let du: u128 = d as u128;
        let q: u128 = m / du;
        let rem: u128 = m % du;
        proof {
            vstd::arithmetic::div_mod::lemma_fundamental_div_mod(m as int, du as int);
        }
        if rem == 0 {
            proof {
                assert(n == -(q as int) * d) by (nonlinear_arith)
                    requires m == du * q + rem, rem == 0, m == -n, du == d;
                vstd::arithmetic::div_mod::lemma_fundamental_div_mod_converse(
                    n as int, d as int, -(q as int), 0);
            }
            -(q as i128)
        } else {
            proof {
                assert(n == (-(q as int) - 1) * d + (d - rem)) by (nonlinear_arith)
                    requires m == du * q + rem, m == -n, du == d;
                vstd::arithmetic::div_mod::lemma_fundamental_div_mod_converse(
                    n as int, d as int, -(q as int) - 1, d - rem);
            }
            -(q as i128) - 1
        }
    }
}

} // verus!
