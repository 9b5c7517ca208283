//! Match scores in their IEEE 754 single precision encoding. A finite number that is not negative
//! is encoded as an exponent of eight bits above a significand of twenty-three bits.

use vstd::arithmetic::power2::*;
use vstd::prelude::*;

verus! {

/// The number one, in units of the smallest positive number.
pub open spec fn one() -> nat {
    pow2(149)
}

/// The number that an encoding stands for, in units of the smallest positive number.
pub open spec fn number(encoding: u32) -> nat {
    let exponent = (encoding / 0x80_0000) as nat;
    let significand = (encoding % 0x80_0000) as nat;
    if exponent == 0 {
        significand
    } else {
        (significand + 0x80_0000) * pow2((exponent - 1) as nat)
    }
}

/// The number is at least so many thousandths.
pub open spec fn reaches(encoding: u32, thousandths: nat) -> bool {
    1000 * number(encoding) >= thousandths * one()
}

/// The first number exceeds the second by at least so many thousandths.
pub open spec fn leads(best: u32, other: u32, thousandths: nat) -> bool {
    1000 * (number(best) - number(other)) >= thousandths * one()
}

/// A number lies between those that its exponent allows.
proof fn lemma_number_range(encoding: u32)
    ensures
        ({
            let exponent = (encoding / 0x80_0000) as nat;
            &&& number(encoding) < 0x80_0000 * pow2(exponent)
            &&& exponent > 0 ==> 0x80_0000 * pow2((exponent - 1) as nat) <= number(encoding)
            &&& exponent > 0 ==> pow2(exponent) == 2 * pow2((exponent - 1) as nat)
        }),
{
    let exponent = (encoding / 0x80_0000) as nat;
    let significand = (encoding % 0x80_0000) as nat;
    lemma2_to64();
    if exponent > 0 {
        let unit = pow2((exponent - 1) as nat);
        lemma_pow2_adds(1, (exponent - 1) as nat);
        lemma_pow2_pos((exponent - 1) as nat);
        assert(0x80_0000 * unit <= (significand + 0x80_0000) * unit && (significand + 0x80_0000)
            * unit < 0x80_0000 * (2 * unit)) by (nonlinear_arith)
            requires
                0 <= significand < 0x80_0000,
                unit > 0,
        ;
    }
}

/// A larger encoding stands for a larger number.
pub proof fn encodings_order_numbers(a: u32, b: u32)
    requires
        a < b,
    ensures
        number(a) < number(b),
{
    let low = (a / 0x80_0000) as nat;
    let high = (b / 0x80_0000) as nat;
    lemma_number_range(a);
    lemma_number_range(b);
    if low == high {
        if low > 0 {
            let unit = pow2((low - 1) as nat);
            lemma_pow2_pos((low - 1) as nat);
            assert(((a % 0x80_0000) + 0x80_0000) * unit < ((b % 0x80_0000) + 0x80_0000) * unit)
                by (nonlinear_arith)
                requires
                    a % 0x80_0000 < b % 0x80_0000,
                    unit > 0,
            ;
        }
    } else {
        assert(low < high);
        if low < high - 1 {
            lemma_pow2_strictly_increases(low, (high - 1) as nat);
        }
    }
}

/// The encoding of three quarters.
proof fn lemma_three_quarters()
    ensures
        1000 * number(0x3f40_0000) == 750 * one(),
{
    let encoding: u32 = 0x3f40_0000;
    lemma2_to64();
    lemma_pow2_adds(24, 125);
    assert(encoding / 0x80_0000 == 126);
    assert(encoding % 0x80_0000 == 0x40_0000);
    assert(number(encoding) == 0xc0_0000 * pow2(125));
    assert(one() == 0x100_0000 * pow2(125));
}

/// Decides whether a score is at least three quarters.
pub fn reaches_three_quarters(encoding: u32) -> (reached: bool)
    ensures
        reached == reaches(encoding, 750),
{
    proof {
        let bound: u32 = 0x3f40_0000;
        lemma_three_quarters();
        if encoding < bound {
            encodings_order_numbers(encoding, bound);
        } else if bound < encoding {
            encodings_order_numbers(bound, encoding);
        }
    }
    encoding >= 0x3f40_0000
}

/// Decides whether a score of at least three quarters exceeds another one by so many thousandths.
pub fn leads_by(best: u32, other: u32, thousandths: u32) -> (leading: bool)
    requires
        reaches(best, 750),
        best < 0x7f80_0000,
        0 < thousandths <= 250,
    ensures
        leading == leads(best, other, thousandths as nat),
{
    proof {
        lemma2_to64();
        lemma_pow2_pos(149);
        lemma_pow2_adds(25, 124);
        lemma_three_quarters();
        if best < 0x3f40_0000 {
            encodings_order_numbers(best, 0x3f40_0000);
        }
        assert(thousandths * one() > 0) by (nonlinear_arith)
            requires
                thousandths > 0,
                one() > 0,
        ;
    }
    if other >= best {
        proof {
            if other > best {
                encodings_order_numbers(best, other);
            }
        }
        return false;
    }
    let high: u32 = best / 0x80_0000;
    let low: u32 = other / 0x80_0000;
    assert(126 <= high <= 254);
    if low + 2 <= high {
        proof {
            lemma_number_range(best);
            lemma_number_range(other);
            let half = pow2((high - 2) as nat);
            lemma_pow2_adds(1, (high - 2) as nat);
            if low + 2 < high {
                lemma_pow2_strictly_increases(low as nat, (high - 2) as nat);
            }
            if high > 126 {
                lemma_pow2_strictly_increases(124, (high - 2) as nat);
            }
            assert(number(best) - number(other) >= 0x80_0000 * half);
            assert(4 * (0x80_0000 * pow2(124)) == one());
            assert(thousandths * one() <= 250 * one()) by (nonlinear_arith)
                requires
                    thousandths <= 250,
                    one() > 0,
            ;
        }
        return true;
    }
    let significand: u64 = (best % 0x80_0000) as u64 + 0x80_0000;
    let aligned: u64 = if low < high {
        significand * 2
    } else {
        significand
    };
    let gap: u64 = aligned - ((other % 0x80_0000) as u64 + 0x80_0000);
    let shift: u32 = low - 125;
    let ghost unit = pow2((low - 1) as nat);
    proof {
        lemma_pow2_adds(124, shift as nat);
        lemma_pow2_pos(shift as nat);
        lemma_pow2_pos(124);
        lemma_pow2_pos((low - 1) as nat);
        if low < high {
            lemma_pow2_adds(1, (low - 1) as nat);
            assert(significand * (2 * unit) == (significand * 2) * unit) by (nonlinear_arith);
        }
        let rest = (other % 0x80_0000) + 0x80_0000;
        assert(aligned * unit - rest * unit == (aligned - rest) * unit) by (nonlinear_arith);
        assert(number(best) - number(other) == gap * unit);
        assert(gap * (pow2(124) * pow2(shift as nat)) == pow2(124) * (gap * pow2(shift as nat)))
            by (nonlinear_arith);
        let steps = (gap * pow2(shift as nat)) as int;
        let bound = thousandths * 0x200_0000;
        assert(thousandths * (0x200_0000 * pow2(124)) == pow2(124) * bound) by (nonlinear_arith)
            requires
                bound == thousandths * 0x200_0000,
        ;
        assert(1000 * (pow2(124) * steps) == pow2(124) * (1000 * steps)) by (nonlinear_arith);
        assert((pow2(124) * (1000 * steps) >= pow2(124) * bound) == (1000 * steps >= bound))
            by (nonlinear_arith)
            requires
                pow2(124) > 0,
        ;
        assert(leads(best, other, thousandths as nat) == (1000 * steps >= bound));
    }
    if shift >= 25 {
        proof {
            if shift > 25 {
                lemma_pow2_strictly_increases(25, shift as nat);
            }
            assert(gap >= 1) by {
                if gap == 0 {
                    assert(gap * unit == 0) by (nonlinear_arith)
                        requires
                            gap == 0,
                    ;
                    encodings_order_numbers(other, best);
                }
            }
            assert(gap * pow2(shift as nat) >= pow2(shift as nat)) by (nonlinear_arith)
                requires
                    gap >= 1,
                    pow2(shift as nat) > 0,
            ;
        }
        return true;
    }
    proof {
        if shift < 24 {
            lemma_pow2_strictly_increases(shift as nat, 24);
        }
        assert(gap * pow2(shift as nat) <= 0x200_0000 * 0x100_0000) by (nonlinear_arith)
            requires
                0 <= gap <= 0x200_0000,
                0 <= pow2(shift as nat) <= 0x100_0000,
        ;
        vstd::bits::lemma_u64_shl_is_mul(gap, shift as u64);
    }
    1000 * (gap << shift as u64) >= thousandths as u64 * 0x200_0000
}

} // verus!
