//! Exact arithmetic shared by the image measurements: rationals compared without rounding, and an
//! ascending sort.

use vstd::prelude::*;
use vstd::relations::*;

verus! {

/// A non-negative rational `num / den`. A zero denominator stands for a value above every bound.
#[derive(Clone, Copy, Debug)]
pub struct Ratio {
    pub num: u128,
    pub den: u128,
}

impl Ratio {
    /// The value lies above `a / b`.
    pub open spec fn is_above(self, a: nat, b: nat) -> bool {
        self.den == 0 || self.num * b > a * self.den
    }

    /// Decides whether the value lies above `a / b`.
    pub fn exceeds(&self, a: u64, b: u64) -> (above: bool)
        ensures
            above == self.is_above(a as nat, b as nat),
    {
        self.den == 0 || !product_le(self.num, b, self.den, a)
    }

    /// The value lies above another one by more than a margin.
    pub open spec fn is_above_by(self, other: Ratio, margin: nat) -> bool {
        self.num * other.den > other.num * self.den + margin * (self.den * other.den)
    }

    /// Decides whether the value lies above another one by more than a margin.
    pub fn exceeds_by(&self, other: &Ratio, margin: u64) -> (above: bool)
        requires
            self.den <= u64::MAX,
            other.den <= u64::MAX,
        ensures
            above == self.is_above_by(*other, margin as nat),
    {
        let den: u64 = self.den as u64;
        let other_den: u64 = other.den as u64;
        assert(margin * den <= 0xffff_ffff_ffff_ffff * 0xffff_ffff_ffff_ffff) by (nonlinear_arith)
            requires
                0 <= margin <= 0xffff_ffff_ffff_ffff,
                0 <= den <= 0xffff_ffff_ffff_ffff,
        ;
        let part: u128 = margin as u128 * den as u128;
        assert(margin * (den * other_den) == part * other_den) by (nonlinear_arith)
            requires
                part == margin * den,
        ;
        if self.num <= part {
            assert(self.num * other_den <= part * other_den && 0 <= other.num * den)
                by (nonlinear_arith)
                requires
                    0 <= self.num <= part,
                    0 <= other_den,
                    0 <= other.num,
                    0 <= den,
            ;
            return false;
        }
        let rest: u128 = self.num - part;
        assert(rest * other_den == self.num * other_den - part * other_den) by (nonlinear_arith)
            requires
                rest == self.num - part,
        ;
        !product_le(rest, other_den, other.num, den)
    }
}

/// Multiplies into a high part, in units of two to the sixty-fourth, and a low part.
fn wide_product(a: u128, b: u64) -> (parts: (u128, u64))
    ensures
        parts.0 * 0x1_0000_0000_0000_0000 + parts.1 == a * b,
{
    let high: u128 = a / 0x1_0000_0000_0000_0000;
    let low: u128 = a % 0x1_0000_0000_0000_0000;
    let factor: u128 = b as u128;
    assert(low * factor <= 0xffff_ffff_ffff_ffff * 0xffff_ffff_ffff_ffff) by (nonlinear_arith)
        requires
            0 <= low <= 0xffff_ffff_ffff_ffff,
            0 <= factor <= 0xffff_ffff_ffff_ffff,
    ;
    assert(high * factor <= 0xffff_ffff_ffff_ffff * 0xffff_ffff_ffff_ffff) by (nonlinear_arith)
        requires
            0 <= high <= 0xffff_ffff_ffff_ffff,
            0 <= factor <= 0xffff_ffff_ffff_ffff,
    ;
    let below: u128 = low * factor;
    let carry: u128 = below / 0x1_0000_0000_0000_0000;
    let rest: u64 = (below % 0x1_0000_0000_0000_0000) as u64;
    assert((high * 0x1_0000_0000_0000_0000 + low) * factor == high * factor
        * 0x1_0000_0000_0000_0000 + low * factor) by (nonlinear_arith);
    (high * factor + carry, rest)
}

/// Compares two products that may not fit any machine integer.
pub fn product_le(a: u128, b: u64, c: u128, d: u64) -> (le: bool)
    ensures
        le == (a * b <= c * d),
{
    let (left_high, left_low): (u128, u64) = wide_product(a, b);
    let (right_high, right_low): (u128, u64) = wide_product(c, d);
    left_high < right_high || (left_high == right_high && left_low <= right_low)
}

/// The whole part of a square root.
pub open spec fn whole_root(n: nat) -> nat
    decreases n,
{
    if n == 0 {
        0
    } else {
        let before = whole_root((n - 1) as nat);
        if (before + 1) * (before + 1) <= n {
            before + 1
        } else {
            before
        }
    }
}

/// The square of the whole root is not over the number, and that of the next number is.
pub proof fn whole_root_is_the_whole_part(n: nat)
    ensures
        whole_root(n) * whole_root(n) <= n < (whole_root(n) + 1) * (whole_root(n) + 1),
    decreases n,
{
    if n > 0 {
        whole_root_is_the_whole_part((n - 1) as nat);
        let before = whole_root((n - 1) as nat);
        let next = before + 1;
        assert((next + 1) * (next + 1) > next * next) by (nonlinear_arith)
            requires
                0 <= next,
        ;
        assert(whole_root(n) == before || whole_root(n) == next);
        if whole_root(n) == before {
            assert(before * before <= n < next * next);
        } else {
            assert(next * next <= n < (next + 1) * (next + 1));
        }
    } else {
        let root = whole_root(n);
        assert(root * root == 0 && (root + 1) * (root + 1) == 1) by (nonlinear_arith)
            requires
                root == 0,
        ;
    }
}

/// How many of the positions `0, step, 2 * step, ..` lie below `length`.
pub open spec fn sample_count(length: int, step: int) -> int
    recommends
        0 <= length,
        0 < step,
{
    (length + step - 1) / step
}

/// Every sampled position lies below the length, and there is no sample only where there is no
/// length.
pub proof fn lemma_samples(length: int, step: int)
    requires
        0 <= length,
        0 < step,
    ensures
        0 <= sample_count(length, step) <= length,
        sample_count(length, step) == 0 <==> length == 0,
        forall|k: int|
            #![trigger k * step]
            0 <= k < sample_count(length, step) ==> 0 <= k * step < length,
{
    let n = sample_count(length, step);
    vstd::arithmetic::div_mod::lemma_fundamental_div_mod(length + step - 1, step);
    assert(n * step <= length + step - 1 && length <= n * step) by (nonlinear_arith)
        requires
            length + step - 1 == step * n + (length + step - 1) % step,
            0 <= (length + step - 1) % step < step,
    ;
    assert(0 <= n) by (nonlinear_arith)
        requires
            0 <= length,
            length <= n * step,
            0 < step,
    ;
    assert(n <= length) by (nonlinear_arith)
        requires
            0 <= length,
            n * step <= length + step - 1,
            0 < step,
    ;
    assert(n == 0 ==> length == 0);
    assert forall|k: int| #![trigger k * step] 0 <= k < n implies 0 <= k * step < length by {
        assert(0 <= k * step && (k + 1) * step <= n * step && (k + 1) * step == k * step + step)
            by (nonlinear_arith)
            requires
                0 <= k,
                k + 1 <= n,
                0 < step,
        ;
    }
}

/// Counts the sampled positions below `length`.
pub fn count_samples(length: u32, step: u32) -> (n: u32)
    requires
        0 < step,
    ensures
        n == sample_count(length as int, step as int),
{
    proof {
        lemma_samples(length as int, step as int);
    }
    ((length as u64 + step as u64 - 1) / step as u64) as u32
}

/// The order in which numbers are sorted.
pub open spec fn ascending() -> spec_fn(u32, u32) -> bool {
    |a: u32, b: u32| a <= b
}

/// The same numbers, smallest first.
pub open spec fn sorted(values: Seq<u32>) -> Seq<u32> {
    values.sort_by(ascending())
}

/// A rearrangement in ascending order is the sorted sequence.
pub proof fn lemma_sorted_is_unique(values: Seq<u32>, arranged: Seq<u32>)
    requires
        arranged.to_multiset() == values.to_multiset(),
        sorted_by(arranged, ascending()),
    ensures
        arranged == sorted(values),
        arranged.len() == values.len(),
{
    values.lemma_sort_by_ensures(ascending());
    vstd::seq_lib::lemma_sorted_unique(arranged, sorted(values), ascending());
    broadcast use vstd::seq_lib::group_to_multiset_ensures;

    assert(arranged.to_multiset().len() == arranged.len());
    assert(values.to_multiset().len() == values.len());
}

/// Puts a number into an ascending sequence, before the first larger one.
fn insert_ascending(values: &mut Vec<u32>, value: u32)
    requires
        sorted_by(old(values)@, ascending()),
    ensures
        sorted_by(final(values)@, ascending()),
        final(values)@.to_multiset() == old(values)@.to_multiset().insert(value),
{
    let mut at: usize = 0;
    while at < values.len() && values[at] <= value
        invariant
            at <= values.len(),
            values@ == old(values)@,
            forall|i: int| 0 <= i < at ==> values@[i] <= value,
        decreases values.len() - at,
    {
        at += 1;
    }
    let ghost before = values@;
    proof {
        broadcast use vstd::seq_lib::group_to_multiset_ensures;

        assert forall|i: int| at <= i < before.len() implies value <= before[i] by {
            if i > at {
                assert(ascending()(before[at as int], before[i]));
            }
        }
        assert(before.insert(at as int, value).to_multiset() =~= before.to_multiset().insert(
            value,
        ));
        assert forall|i: int, j: int| 0 <= i < j < before.len() implies before[i] <= before[j] by {
            assert(ascending()(before[i], before[j]));
        }
    }
    values.insert(at, value);
}

/// Arranges numbers in ascending order.
pub fn sort_ascending(values: &Vec<u32>) -> (arranged: Vec<u32>)
    ensures
        arranged@ == sorted(values@),
        arranged@.len() == values@.len(),
{
    let mut arranged: Vec<u32> = Vec::new();
    let mut i: usize = 0;
    assert(values@.take(0) =~= arranged@);
    while i < values.len()
        invariant
            i <= values.len(),
            sorted_by(arranged@, ascending()),
            arranged@.to_multiset() == values@.take(i as int).to_multiset(),
        decreases values.len() - i,
    {
        insert_ascending(&mut arranged, values[i]);
        proof {
            broadcast use vstd::seq_lib::group_to_multiset_ensures;

            assert(values@.take(i as int).push(values@[i as int]) =~= values@.take(i + 1));
        }
        i += 1;
    }
    proof {
        assert(values@.take(i as int) =~= values@);
        lemma_sorted_is_unique(values@, arranged@);
    }
    arranged
}

} // verus!
