//! Packing two bounded numbers into one, positionally.
//!
//! With `value` in `0..max`, the pair `(rest, value)` is stored as
//! `rest * max + value`; dividing by `max` takes it apart again.

use vstd::prelude::*;

verus! {

/// `value` stacked on top of `rest`, in base `max`.
pub open spec fn mix(rest: int, value: int, max: int) -> int {
    rest * max + value
}

/// Stacks `value` on top of `rest`, in base `max`.
pub fn mix_ranged(rest: usize, value: usize, max: usize) -> (r: usize)
    requires
        mix(rest as int, value as int, max as int) <= usize::MAX,
    ensures
        r == mix(rest as int, value as int, max as int),
{
    proof {
        lemma_product_nonnegative(rest as int, max as int);
    }
    rest * max + value
}

/// Takes the topmost value in base `max` off `mixed`: the rest comes first,
/// the value second.
pub fn unmix_ranged(mixed: usize, max: usize) -> (r: (usize, usize))
    requires
        max > 0,
    ensures
        r.0 == mixed as int / max as int,
        r.1 == mixed as int % max as int,
        r.1 < max,
        mix(r.0 as int, r.1 as int, max as int) == mixed,
{
    proof {
        lemma_mix_of_unmix(mixed as int, max as int);
    }
    (mixed / max, mixed % max)
}

/// A product of naturals is a natural.
pub proof fn lemma_product_nonnegative(a: int, b: int)
    by (nonlinear_arith)
    requires
        0 <= a,
        0 <= b,
    ensures
        0 <= a * b,
{
}

/// Taking apart what was put together gives the parts back.
pub proof fn lemma_unmix_of_mix(rest: int, value: int, max: int)
    by (nonlinear_arith)
    requires
        0 <= value < max,
    ensures
        mix(rest, value, max) / max == rest,
        mix(rest, value, max) % max == value,
{
    let m = rest * max + value;
    assert(m == max * rest + value);
    assert(m / max == rest && m % max == value) by {
        vstd::arithmetic::div_mod::lemma_fundamental_div_mod_converse(m, max, rest, value);
    }
}

/// Putting together what was taken apart gives the number back.
pub proof fn lemma_mix_of_unmix(mixed: int, max: int)
    requires
        0 < max,
    ensures
        mix(mixed / max, mixed % max, max) == mixed,
        0 <= mixed % max < max,
        0 <= mixed ==> 0 <= mixed / max,
{
    vstd::arithmetic::div_mod::lemma_fundamental_div_mod(mixed, max);
    vstd::arithmetic::div_mod::lemma_mod_bound(mixed, max);
    assert(max * (mixed / max) == (mixed / max) * max) by (nonlinear_arith);
    if 0 <= mixed {
        vstd::arithmetic::div_mod::lemma_div_pos_is_pos(mixed, max);
    }
}

/// A mix of numbers below `count` and `max` is below `count * max`.
pub proof fn lemma_mix_in_range(rest: int, value: int, count: int, max: int)
    by (nonlinear_arith)
    requires
        0 <= rest < count,
        0 <= value < max,
    ensures
        0 <= mix(rest, value, max) < count * max,
{
    assert(rest * max + max <= count * max) by {
        assert((rest + 1) * max <= count * max);
    }
}

/// A number is below `count * max` exactly when its rest is below `count`.
pub proof fn lemma_unmix_in_range(mixed: int, count: int, max: int)
    requires
        0 <= mixed,
        0 < max,
        0 <= count,
    ensures
        (mixed < count * max) <==> (mixed / max < count),
{
    lemma_mix_of_unmix(mixed, max);
    let q = mixed / max;
    let r = mixed % max;
    if q < count {
        lemma_mix_in_range(q, r, count, max);
    } else {
        assert(count * max <= q * max) by (nonlinear_arith)
            requires
                0 <= count <= q,
                0 < max,
        ;
    }
}

} // verus!
