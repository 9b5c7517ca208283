//! How much numbers vary, by the definition of a variance.

use vstd::prelude::*;

verus! {

/// Numbers, added up.
pub open spec fn total(values: Seq<int>) -> int
    decreases values.len(),
{
    if values.len() == 0 {
        0
    } else {
        total(values.drop_last()) + values.last()
    }
}

/// The squares of numbers, added up.
pub open spec fn squares(values: Seq<int>) -> int
    decreases values.len(),
{
    if values.len() == 0 {
        0
    } else {
        squares(values.drop_last()) + values.last() * values.last()
    }
}

/// The squares of how far `count` times each number is from a sum, added up. For all numbers and
/// their own sum, this is their variance times the third power of their count.
pub open spec fn spread(values: Seq<int>, count: int, sum: int) -> int
    decreases values.len(),
{
    if values.len() == 0 {
        0
    } else {
        spread(values.drop_last(), count, sum) + (count * values.last() - sum) * (count
            * values.last() - sum)
    }
}

/// The spread around any number, by the sums.
proof fn lemma_spread(values: Seq<int>, count: int, sum: int)
    ensures
        spread(values, count, sum) == count * count * squares(values) - 2 * count * sum * total(
            values,
        ) + values.len() * (sum * sum),
    decreases values.len(),
{
    if values.len() == 0 {
        assert(count * count * 0 == 0 && 2 * count * sum * 0 == 0 && 0 * (sum * sum) == 0)
            by (nonlinear_arith);
    } else {
        let less = values.drop_last();
        lemma_spread(less, count, sum);
        let v = values.last();
        let s = squares(less);
        let t = total(less);
        let n = less.len() as int;
        assert((count * v - sum) * (count * v - sum) == count * count * (v * v) - 2 * count * sum
            * v + sum * sum) by (nonlinear_arith);
        assert(count * count * (s + v * v) == count * count * s + count * count * (v * v))
            by (nonlinear_arith);
        assert(2 * count * sum * (t + v) == 2 * count * sum * t + 2 * count * sum * v)
            by (nonlinear_arith);
        assert((n + 1) * (sum * sum) == n * (sum * sum) + sum * sum) by (nonlinear_arith);
    }
}

/// The spread of numbers is their count times what the sums say: the count times the squares, less
/// the square of the sum.
pub proof fn spread_is_said_by_the_sums(values: Seq<int>)
    ensures
        ({
            let n = values.len() as int;
            spread(values, n, total(values)) == n * (n * squares(values) - total(values) * total(
                values,
            ))
        }),
{
    let n = values.len() as int;
    let t = total(values);
    let s = squares(values);
    lemma_spread(values, n, t);
    assert(n * n * s - 2 * n * t * t + n * (t * t) == n * (n * s - t * t)) by (nonlinear_arith);
}

/// Sums over one list behind another.
pub proof fn sums_add_up(first: Seq<int>, second: Seq<int>)
    ensures
        total(first + second) == total(first) + total(second),
        squares(first + second) == squares(first) + squares(second),
    decreases second.len(),
{
    if second.len() == 0 {
        assert(first + second =~= first);
    } else {
        sums_add_up(first, second.drop_last());
        assert((first + second).drop_last() =~= first + second.drop_last());
        assert((first + second).last() == second.last());
    }
}

/// So many of the numbers lie below a bound.
pub open spec fn count_below(values: Seq<int>, bound: int) -> nat {
    values.filter(|v: int| v < bound).len()
}

/// One more number counts if it lies below the bound.
pub proof fn counting_adds_up(first: Seq<int>, second: Seq<int>, bound: int)
    ensures
        count_below(first + second, bound) == count_below(first, bound) + count_below(
            second,
            bound,
        ),
{
    Seq::filter_distributes_over_add(first, second, |v: int| v < bound);
}

} // verus!
