//! Integer construction of the 64-bit float encodings that the metadata
//! record stores: the quotient `num / den` rounded to nearest, ties to even,
//! packed as sign, biased exponent, and 52-bit mantissa. The library holds
//! numbers as their raw bits throughout, so no floating point is computed.
use vstd::prelude::*;

use vstd::arithmetic::div_mod::{lemma_div_is_ordered, lemma_fundamental_div_mod};
use vstd::arithmetic::mul::{lemma_mul_inequality, lemma_mul_upper_bound};
use vstd::arithmetic::power2::{
    lemma2_to64, lemma2_to64_rest, lemma_pow2_strictly_increases, lemma_pow2_unfold, pow2,
};

verus! {

/// Scale `n` up by doublings until the quotient reaches the mantissa range,
/// counting the doublings down in the exponent.
pub open spec fn spec_scale_up(n: int, d: int, e: int) -> (int, int)
    decreases
            (if 0x10000000000000 * d - n > 0 {
                0x10000000000000 * d - n
            } else {
                0
            }),
    via spec_scale_up_decreases
{
    if n <= 0 || d <= 0 || n / d >= 0x10000000000000 {
        (n, e)
    } else {
        spec_scale_up(n * 2, d, e - 1)
    }
}

#[via_fn]
proof fn spec_scale_up_decreases(n: int, d: int, e: int) {
    if !(n <= 0 || d <= 0 || n / d >= 0x10000000000000) {
        lemma_fundamental_div_mod(n, d);
        lemma_mul_inequality(n / d, 0xFFFFFFFFFFFFF, d);
    }
}

/// Scale `d` up by doublings until the quotient falls below twice the
/// mantissa range, counting the doublings up in the exponent.
pub open spec fn spec_scale_down(n: int, d: int, e: int) -> (int, int)
    decreases
            (if n + 1 - 0x20000000000000 * d >= 0 {
                n + 1 - 0x20000000000000 * d
            } else {
                0
            }),
    via spec_scale_down_decreases
{
    if n <= 0 || d <= 0 || n / d < 0x20000000000000 {
        (d, e)
    } else {
        spec_scale_down(n, d * 2, e + 1)
    }
}

#[via_fn]
proof fn spec_scale_down_decreases(n: int, d: int, e: int) {
    if !(n <= 0 || d <= 0 || n / d < 0x20000000000000) {
        lemma_fundamental_div_mod(n, d);
        lemma_mul_inequality(0x20000000000000, n / d, d);
        assert(d * (n / d) == (n / d) * d) by (nonlinear_arith);
        assert(n >= 0x20000000000000 * d);
    }
}

/// The bits of `num / den` rounded to nearest, ties to even: zero encodes
/// as zero, otherwise the normalized mantissa in [2^52, 2^53) is packed
/// under the biased exponent.
pub open spec fn spec_f64_bits(num: int, den: int) -> int {
    if num <= 0 || den <= 0 {
        0
    } else {
        let (n1, e1) = spec_scale_up(num, den, 52);
        let (d2, e2) = spec_scale_down(n1, den, e1);
        let q = n1 / d2;
        let rem = n1 % d2;
        let m = if 2 * rem > d2 {
            q + 1
        } else if 2 * rem == d2 && q % 2 == 1 {
            q + 1
        } else {
            q
        };
        let (m3, e3) = if m >= 0x20000000000000 {
            (0x10000000000000, e2 + 1)
        } else {
            (m, e2)
        };
        (e3 + 1023) * 0x10000000000000 + (m3 - 0x10000000000000)
    }
}

/// Encode `num / den` as the bits of a 64-bit float, rounding to nearest
/// with ties to even. Covers the two quotients the metadata needs: whole
/// byte positions and milliseconds turned into seconds.
pub fn f64_bits_of_ratio(num: u64, den: u64) -> (r: u64)
    requires
        1 <= den <= 1000,
        num < 0x4000000000000000,
    ensures
        r == spec_f64_bits(num as int, den as int),
{
    if num == 0 {
        return 0;
    }
    let mut n: u128 = num as u128;
    let d0: u128 = den as u128;
    let mut e: i64 = 52;
    proof {
        lemma2_to64();
        lemma2_to64_rest();
        assert(pow2(0) == 1);
        assert(n as int == num as int * pow2((52 - e) as nat)) by {
            assert(num as int * 1 == num as int) by (nonlinear_arith);
        }
    }
    while n / d0 < 0x10000000000000
        invariant
            1 <= d0 <= 1000,
            1 <= num < 0x4000000000000000,
            1 <= n,
            -11 <= e <= 52,
            n as int == num as int * pow2((52 - e) as nat),
            n < 0x8000000000000000u128,
            spec_scale_up(num as int, den as int, 52) == spec_scale_up(
                n as int,
                d0 as int,
                e as int,
            ),
            d0 == den,
        decreases
                (if 0x10000000000000 * (d0 as int) - (n as int) > 0 {
                    0x10000000000000 * (d0 as int) - (n as int)
                } else {
                    0
                }),
    {
        proof {
            lemma2_to64();
            lemma2_to64_rest();
            lemma_fundamental_div_mod(n as int, d0 as int);
            lemma_mul_inequality(n as int / d0 as int, 0xFFFFFFFFFFFFF, d0 as int);
            assert((n as int) < 0x10000000000000 * (d0 as int));
            lemma_mul_upper_bound(0x10000000000000, 0x10000000000000, d0 as int, 1000);
            // the exponent stays in range: a larger deficit would make n too big
            if e <= -11 {
                if 52 - e > 63 {
                    lemma_pow2_strictly_increases(63, (52 - e) as nat);
                }
                assert(pow2((52 - e) as nat) >= pow2(63));
                assert(num as int * pow2((52 - e) as nat) >= 1 * (pow2(63) as int))
                    by (nonlinear_arith)
                    requires
                        num >= 1,
                        pow2((52 - e) as nat) >= pow2(63),
                ;
                assert(false);
            }
            lemma_pow2_unfold((52 - (e - 1)) as nat);
            assert(num as int * pow2((53 - e) as nat) == num as int * (2 * pow2((52 - e) as nat)));
            assert(num as int * (2 * pow2((52 - e) as nat)) == 2 * (num as int * pow2(
                (52 - e) as nat,
            ))) by (nonlinear_arith);
        }
        n = n * 2;
        e = e - 1;
    }
    let ghost n1 = n as int;
    let ghost e1 = e as int;
    let mut d: u128 = d0;
    proof {
        lemma2_to64();
        assert(pow2(0) == 1);
        assert(d as int == d0 as int * pow2((e - e1) as nat)) by {
            assert(d0 as int * 1 == d0 as int) by (nonlinear_arith);
        }
        lemma_fundamental_div_mod(n as int, d0 as int);
        lemma_mul_inequality(0x10000000000000, n as int / d0 as int, d0 as int);
    }
    while n / d >= 0x20000000000000
        invariant
            1 <= d0 <= 1000,
            1 <= d,
            1 <= n,
            n < 0x8000000000000000u128,
            n as int == n1,
            e1 <= e <= e1 + 63,
            -11 <= e1 <= 52,
            d as int == d0 as int * pow2((e - e1) as nat),
            d as int <= n as int,
            n as int / d as int >= 0x10000000000000,
            spec_scale_down(n1, d0 as int, e1) == spec_scale_down(n as int, d as int, e as int),
        decreases
                (if (n as int) + 1 - 0x20000000000000 * (d as int) >= 0 {
                    (n as int) + 1 - 0x20000000000000 * (d as int)
                } else {
                    0
                }),
    {
        proof {
            lemma2_to64();
            lemma2_to64_rest();
            lemma_fundamental_div_mod(n as int, d as int);
            lemma_mul_inequality(0x20000000000000, n as int / d as int, d as int);
            assert(n as int >= 0x20000000000000 * (d as int));
            if e - e1 >= 63 {
                if e - e1 > 63 {
                    lemma_pow2_strictly_increases(63, (e - e1) as nat);
                }
                assert(pow2((e - e1) as nat) >= pow2(63));
                assert(d0 as int * pow2((e - e1) as nat) >= 1 * (pow2(63) as int))
                    by (nonlinear_arith)
                    requires
                        d0 >= 1,
                        pow2((e - e1) as nat) >= pow2(63),
                ;
                assert(false);
            }
            assert((n as int) / (2 * (d as int)) >= (0x20000000000000 * (d as int)) / (2 * (
            d as int))) by {
                lemma_div_is_ordered(0x20000000000000 * (d as int), n as int, 2 * (d as int));
            }
            assert((0x20000000000000 * (d as int)) / (2 * (d as int)) == 0x10000000000000)
                by (nonlinear_arith)
                requires
                    d >= 1,
            ;
            lemma_pow2_unfold((e + 1 - e1) as nat);
            assert(d0 as int * pow2((e + 1 - e1) as nat) == d0 as int * (2 * pow2(
                (e - e1) as nat,
            )));
            assert(d0 as int * (2 * pow2((e - e1) as nat)) == 2 * (d0 as int * pow2(
                (e - e1) as nat,
            ))) by (nonlinear_arith);
        }
        d = d * 2;
        e = e + 1;
    }
    let q: u128 = n / d;
    let rem: u128 = n % d;
    proof {
        lemma_fundamental_div_mod(n as int, d as int);
    }
    let m: u128 = if 2 * rem > d {
        q + 1
    } else if 2 * rem == d && q % 2 == 1 {
        q + 1
    } else {
        q
    };
    let (m3, e3): (u128, i64) = if m >= 0x20000000000000 {
        (0x10000000000000, e + 1)
    } else {
        (m, e)
    };
    ((e3 + 1023) as u64) * 0x10000000000000 + (m3 as u64 - 0x10000000000000)
}

} // verus!
