use crate::arith::floor_div;
use vstd::prelude::*;

verus! {

/// The fixed-point value of 1 for interpolation fractions.
pub const FRACTION_ONE: u64 = 4294967296;

/// Linear interpolation `x * b + (1 - x) * a` with `x` in units of
/// `1 / FRACTION_ONE`, rounded down.
pub open spec fn lerp_spec(x: int, a: int, b: int) -> int {
    (x * b + (FRACTION_ONE - x) * a) / (FRACTION_ONE as int)
}

pub fn lerp(x: u64, a: i32, b: i32) -> (r: i32)
    requires
        x <= FRACTION_ONE,
    ensures
        r as int == lerp_spec(x as int, a as int, b as int),
        a <= b ==> a <= r <= b,
        b <= a ==> b <= r <= a,
{
    let xi: i128 = x as i128;
    let one: i128 = FRACTION_ONE as i128;
    proof {
        assert(-0x80000000 * 0x100000000 <= xi * b <= 0x80000000 * 0x100000000) by (nonlinear_arith)
            requires 0 <= xi <= 0x100000000, -0x80000000 <= b <= 0x80000000;
        assert(-0x80000000 * 0x100000000 <= (one - xi) * a <= 0x80000000 * 0x100000000)
            by (nonlinear_arith)
            requires 0 <= one - xi <= 0x100000000, -0x80000000 <= a <= 0x80000000;
    }
    let n: i128 = xi * (b as i128) + (one - xi) * (a as i128);
    let q: i128 = floor_div(n, one);
    proof {
        let lo = if a <= b { a as int } else { b as int };
        let hi = if a <= b { b as int } else { a as int };
        assert(lo * one <= n <= hi * one) by (nonlinear_arith)
            requires
                n == xi * b + (one - xi) * a,
                0 <= xi <= one,
                lo <= a <= hi,
                lo <= b <= hi,
                lo == a || lo == b,
                hi == a || hi == b,
        ;
        vstd::arithmetic::div_mod::lemma_div_is_ordered(lo * one, n as int, one as int);
        vstd::arithmetic::div_mod::lemma_div_is_ordered(n as int, hi * one, one as int);
        vstd::arithmetic::div_mod::lemma_div_multiples_vanish(lo, one as int);
        vstd::arithmetic::div_mod::lemma_div_multiples_vanish(hi, one as int);
        assert(lo * one == one * lo && hi * one == one * hi) by (nonlinear_arith);
    }
    q as i32
}

} // verus!
