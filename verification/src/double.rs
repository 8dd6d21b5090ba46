//! IEEE 754 doubles by their bits: which of them are whole numbers, and which.

use vstd::arithmetic::power2::{
    lemma2_to64, lemma2_to64_rest, lemma_pow2_adds, lemma_pow2_pos, lemma_pow2_strictly_increases,
    pow2,
};
use vstd::prelude::*;

verus! {

/// The exponent field.
pub open spec fn exponent_field(bits: u64) -> nat {
    (bits / 0x10_0000_0000_0000 % 2048) as nat
}

/// The fraction field.
pub open spec fn fraction_field(bits: u64) -> nat {
    (bits % 0x10_0000_0000_0000) as nat
}

/// The sign bit is set.
pub open spec fn is_negative(bits: u64) -> bool {
    bits >= 0x8000_0000_0000_0000
}

/// Neither infinite nor NaN.
pub open spec fn is_finite(bits: u64) -> bool {
    exponent_field(bits) != 2047
}

/// The significand as an integer: a finite double is `±significand * 2^scale`.
pub open spec fn significand(bits: u64) -> nat {
    if exponent_field(bits) == 0 {
        fraction_field(bits)
    } else {
        0x10_0000_0000_0000 + fraction_field(bits)
    }
}

/// The power of two by which the significand is scaled.
pub open spec fn scale(bits: u64) -> int {
    if exponent_field(bits) == 0 {
        -1074
    } else {
        exponent_field(bits) - 1075
    }
}

/// The magnitude of a finite double that is a whole number.
pub open spec fn whole_magnitude(bits: u64) -> Option<nat> {
    if !is_finite(bits) {
        None
    } else if scale(bits) >= 0 {
        Some(significand(bits) * pow2(scale(bits) as nat))
    } else if significand(bits) % pow2((-scale(bits)) as nat) == 0 {
        Some(significand(bits) / pow2((-scale(bits)) as nat))
    } else {
        None
    }
}

/// The value of a finite double that is a whole number.
pub open spec fn whole_value(bits: u64) -> Option<int> {
    match whole_magnitude(bits) {
        Some(m) => Some(
            if is_negative(bits) {
                -m
            } else {
                m as int
            },
        ),
        None => None,
    }
}

/// The value of a whole double, if it fits in an `i64`.
pub open spec fn whole_i64(bits: u64) -> Option<i64> {
    match whole_value(bits) {
        Some(n) => if i64::MIN <= n <= i64::MAX {
            Some(n as i64)
        } else {
            None
        },
        None => None,
    }
}

/// Whether a double is neither infinite nor NaN.
pub fn finite(bits: u64) -> (r: bool)
    ensures
        r == is_finite(bits),
{
    bits / 0x10_0000_0000_0000 % 2048 != 2047
}

/// `2^k` for `k` up to 62.
fn power_of_two(k: u64) -> (p: u64)
    requires
        k <= 62,
    ensures
        p == pow2(k as nat),
        p <= 0x4000_0000_0000_0000,
{
    let mut p: u64 = 1;
    let mut i: u64 = 0;
    proof {
        lemma2_to64();
        lemma2_to64_rest();
    }
    while i < k
        invariant
            i <= k <= 62,
            p == pow2(i as nat),
            pow2(62) == 0x4000_0000_0000_0000,
            pow2(1) == 2,
        decreases k - i,
    {
        proof {
            lemma_pow2_adds(i as nat, 1);
            lemma_pow2_strictly_increases(i as nat, 62);
        }
        p = p * 2;
        i += 1;
    }
    proof {
        if k < 62 {
            lemma_pow2_strictly_increases(k as nat, 62);
        }
    }
    p
}

/// A significand is no multiple of a power of two beyond it.
proof fn lemma_not_whole(m: nat, k: nat)
    requires
        0 < m < 0x20_0000_0000_0000,
        k >= 53,
    ensures
        m % pow2(k) != 0,
{
    lemma2_to64_rest();
    if k > 53 {
        lemma_pow2_strictly_increases(53, k);
    }
    assert(m % pow2(k) == m) by (nonlinear_arith)
        requires
            0 < m < pow2(k),
    ;
}

/// A significand with the leading bit, scaled beyond 2^11, is over 2^63.
proof fn lemma_large(m: nat, e: nat)
    requires
        m >= 0x10_0000_0000_0000,
        e >= 11,
        e > 11 || m > 0x10_0000_0000_0000,
    ensures
        m * pow2(e) > 0x8000_0000_0000_0000,
{
    lemma2_to64();
    if e > 11 {
        lemma_pow2_strictly_increases(11, e);
    }
    assert(m * pow2(e) > 0x8000_0000_0000_0000) by (nonlinear_arith)
        requires
            m >= 0x10_0000_0000_0000,
            pow2(e) >= 2048,
            pow2(e) > 2048 || m > 0x10_0000_0000_0000,
    ;
}

/// The value of a whole double, if it fits in an `i64`.
pub fn as_whole_i64(bits: u64) -> (r: Option<i64>)
    ensures
        r == whole_i64(bits),
{
    let exponent: u64 = bits / 0x10_0000_0000_0000 % 2048;
    let fraction: u64 = bits % 0x10_0000_0000_0000;
    let negative: bool = bits >= 0x8000_0000_0000_0000;
    if exponent == 2047 {
        return None;
    }
    if exponent == 0 {
        if fraction == 0 {
            proof {
                lemma_pow2_pos(1074);
                assert(0nat % pow2(1074) == 0 && 0nat / pow2(1074) == 0) by (nonlinear_arith)
                    requires
                        pow2(1074) > 0,
                ;
            }
            return Some(0);
        }
        proof {
            lemma_not_whole(fraction as nat, 1074);
        }
        return None;
    }
    let m: u64 = 0x10_0000_0000_0000 + fraction;
    let magnitude: u64 = if exponent >= 1075 {
        let e: u64 = exponent - 1075;
        if e > 11 || (e == 11 && m > 0x10_0000_0000_0000) {
            proof {
                lemma_large(m as nat, e as nat);
            }
            return None;
        }
        let p: u64 = power_of_two(e);
        proof {
            lemma2_to64();
            if e < 11 {
                lemma_pow2_strictly_increases(e as nat, 11);
                assert(p <= 1024) by {
                    if e < 10 {
                        lemma_pow2_strictly_increases(e as nat, 10);
                    }
                }
                assert(m * p < 0x8000_0000_0000_0000) by (nonlinear_arith)
                    requires
                        m < 0x20_0000_0000_0000,
                        p <= 1024,
                ;
            } else {
                assert(m * p == 0x8000_0000_0000_0000) by (nonlinear_arith)
                    requires
                        m == 0x10_0000_0000_0000,
                        p == 2048,
                ;
            }
        }
        m * p
    } else {
        let k: u64 = 1075 - exponent;
        if k > 52 {
            proof {
                lemma_not_whole(m as nat, k as nat);
            }
            return None;
        }
        let p: u64 = power_of_two(k);
        proof {
            lemma_pow2_pos(k as nat);
        }
        if m % p != 0 {
            return None;
        }
        assert(m / p <= m) by (nonlinear_arith)
            requires
                p > 0,
        ;
        m / p
    };
    if negative {
        if magnitude == 0x8000_0000_0000_0000 {
            Some(i64::MIN)
        } else {
            Some(-(magnitude as i64))
        }
    } else if magnitude == 0x8000_0000_0000_0000 {
        None
    } else {
        Some(magnitude as i64)
    }
}

/// Multiplying by a positive number loses nothing.
proof fn lemma_scaled(n: int, m: int, power: int)
    requires
        power > 0,
    ensures
        n * power == m * power <==> n == m,
{
    assert(n * power == m * power <==> n == m) by (nonlinear_arith)
        requires
            power > 0,
    ;
}

/// A double with a given sign, exponent field `e` and fraction field `f` is a whole number `n` just
/// where `n` times 2^1075 is the significand times two to the power `e`, and that `n` is found if it
/// fits in an `i64`. The only doubles that are not finite have all bits of the exponent set.
pub proof fn law_whole_doubles(bits: u64, negative: bool, e: nat, f: nat, n: i64)
    requires
        e < 2048,
        f < 0x10_0000_0000_0000,
        bits == (if negative {
            0x8000_0000_0000_0000int
        } else {
            0
        }) + e * 0x10_0000_0000_0000 + f,
    ensures
        is_finite(bits) <==> e != 2047,
        whole_i64(bits) == Some(n) <==> {
            let significand = if e == 0 {
                2 * f as int
            } else {
                (0x10_0000_0000_0000 + f) * pow2(e) as int
            };
            e != 2047 && n * pow2(1075) == (if negative {
                -significand
            } else {
                significand
            })
        },
{
    assert(exponent_field(bits) == e);
    assert(fraction_field(bits) == f);
    assert(is_negative(bits) == negative);
    lemma_pow2_pos(1075);
    lemma_pow2_pos(e);
    let m = significand(bits);
    let sign: int = if negative {
        -1
    } else {
        1
    };
    let target = if e == 0 {
        2 * f as int
    } else {
        (0x10_0000_0000_0000 + f) * pow2(e) as int
    };
    if e != 2047 {
        if scale(bits) >= 0 {
            let k = (e - 1075) as nat;
            lemma_pow2_adds(k, 1075);
            let q = m * pow2(k);
            assert(q * pow2(1075) == target) by (nonlinear_arith)
                requires
                    q == m * pow2(k),
                    target == m * pow2(e),
                    pow2(k) * pow2(1075) == pow2(e),
            ;
            lemma_scaled(n as int, sign * q, pow2(1075) as int);
            assert((sign * q) * pow2(1075) == sign * (q * pow2(1075))) by (nonlinear_arith);
        } else {
            let k = (-scale(bits)) as nat;
            let p = pow2(k) as int;
            let rest = pow2((1075 - k) as nat) as int;
            lemma_pow2_pos(k);
            lemma_pow2_pos((1075 - k) as nat);
            lemma_pow2_adds(k, (1075 - k) as nat);
            lemma2_to64();
            assert(target == m * rest) by {
                if e == 0 {
                    assert(rest == 2);
                }
            }
            assert(n * pow2(1075) == (n * p) * rest) by (nonlinear_arith)
                requires
                    pow2(1075) == p * rest,
            ;
            assert((sign * m) * rest == sign * target) by (nonlinear_arith)
                requires
                    target == m * rest,
            ;
            lemma_scaled(n * p, sign * m, rest);
            let q = m as int / p;
            let r = m as int % p;
            vstd::arithmetic::div_mod::lemma_fundamental_div_mod(m as int, p);
            if r == 0 {
                assert((sign * q) * p == sign * m) by (nonlinear_arith)
                    requires
                        m == p * q,
                ;
                lemma_scaled(n as int, sign * q, p);
            } else if n * p == sign * m {
                let a = sign * n;
                assert(m == p * a) by (nonlinear_arith)
                    requires
                        n * p == sign * m,
                        a == sign * n,
                        sign == 1 || sign == -1,
                ;
                vstd::arithmetic::div_mod::lemma_mod_multiples_basic(a, p);
                assert(p * a == a * p) by (nonlinear_arith);
            }
        }
    }
}

} // verus!
