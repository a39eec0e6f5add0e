//! Numbering the unordered pairs of distinct naturals.
//!
//! The pair `{low, high}` with `low < high` gets the number
//! `high * (high - 1) / 2 + low`. The pairs drawn from `0..n` fill `0..n * (n - 1) / 2`
//! with no gaps, so a table indexed by pairs wastes no slot.

use vstd::prelude::*;

verus! {

/// The number of unordered pairs of distinct elements of `0..n`.
pub open spec fn pair_count(n: int) -> int {
    n * (n - 1) / 2
}

/// The number of the pair `{low, high}`, where `low < high`.
pub open spec fn pair_code(low: int, high: int) -> int {
    pair_count(high) + low
}

/// The pair with number `code`, smaller element first.
pub open spec fn pair_of(code: int) -> (int, int) {
    choose|p: (int, int)| 0 <= p.0 < p.1 && pair_code(p.0, p.1) == code
}

/// One more element adds as many pairs as there were elements.
pub proof fn lemma_pair_count_step(n: int)
    ensures
        pair_count(n + 1) == pair_count(n) + n,
{
    assert((n + 1) * n == n * (n - 1) + 2 * n) by (nonlinear_arith);
}

/// More elements make at least as many pairs.
pub proof fn lemma_pair_count_monotone(a: int, b: int)
    requires
        0 <= a <= b,
    ensures
        0 <= pair_count(a) <= pair_count(b),
    decreases b - a,
{
    if a < b {
        lemma_pair_count_monotone(a, b - 1);
        lemma_pair_count_step(b - 1);
    } else {
        assert(0 <= a * (a - 1)) by (nonlinear_arith)
            requires
                0 <= a,
        ;
    }
}

/// The numbers of the pairs whose larger element is `high` lie between the
/// pair counts of `high` and of `high + 1`.
pub proof fn lemma_pair_code_bounds(low: int, high: int)
    requires
        0 <= low < high,
    ensures
        0 <= pair_count(high) <= pair_code(low, high) < pair_count(high + 1),
{
    lemma_pair_count_step(high);
    lemma_pair_count_monotone(0, high);
}

/// A pair drawn from `0..n` has a number below the pair count of `n`, and
/// no other pair has.
pub proof fn lemma_pair_code_in_range(low: int, high: int, n: int)
    requires
        0 <= low < high,
        0 <= n,
    ensures
        (pair_code(low, high) < pair_count(n)) <==> high < n,
{
    lemma_pair_code_bounds(low, high);
    if high < n {
        lemma_pair_count_monotone(high + 1, n);
    } else {
        lemma_pair_count_monotone(n, high);
    }
}

/// Different pairs have different numbers.
pub proof fn lemma_pair_code_injective(low1: int, high1: int, low2: int, high2: int)
    requires
        0 <= low1 < high1,
        0 <= low2 < high2,
        pair_code(low1, high1) == pair_code(low2, high2),
    ensures
        low1 == low2,
        high1 == high2,
{
    lemma_pair_code_bounds(low1, high1);
    lemma_pair_code_bounds(low2, high2);
    if high1 < high2 {
        lemma_pair_count_monotone(high1 + 1, high2);
    } else if high2 < high1 {
        lemma_pair_count_monotone(high2 + 1, high1);
    }
}

/// `pair_of` undoes `pair_code`.
pub proof fn lemma_pair_of_code(low: int, high: int)
    requires
        0 <= low < high,
    ensures
        pair_of(pair_code(low, high)) == (low, high),
{
    let code = pair_code(low, high);
    let witness = (low, high);
    assert(0 <= witness.0 < witness.1 && pair_code(witness.0, witness.1) == code);
    let p = pair_of(code);
    lemma_pair_code_injective(low, high, p.0, p.1);
}

/// Every natural is the number of a pair, and `pair_of` names it.
pub proof fn lemma_code_of_pair(code: int)
    requires
        0 <= code,
    ensures
        0 <= pair_of(code).0 < pair_of(code).1,
        pair_code(pair_of(code).0, pair_of(code).1) == code,
{
    lemma_pair_exists(code, 1);
}

/// Searching upwards from `high`, a pair with number `code` turns up.
proof fn lemma_pair_exists(code: int, high: int)
    requires
        1 <= high,
        pair_count(high) <= code,
    ensures
        exists|p: (int, int)| 0 <= p.0 < p.1 && pair_code(p.0, p.1) == code,
    decreases code - pair_count(high),
{
    lemma_pair_count_step(high);
    if code < pair_count(high + 1) {
        let witness = (code - pair_count(high), high);
        assert(0 <= witness.0 < witness.1 && pair_code(witness.0, witness.1) == code);
    } else {
        lemma_pair_exists(code, high + 1);
    }
}

/// The number of the unordered pair `{a, b}`, if the two differ and the
/// number fits in a byte.
pub fn encode_upair(a: u8, b: u8) -> (r: Option<u8>)
    ensures
        r is Some <==> a != b && pair_code(
            if a < b { a as int } else { b as int },
            if a < b { b as int } else { a as int },
        ) <= u8::MAX,
        r matches Some(code) ==> code == pair_code(
            if a < b { a as int } else { b as int },
            if a < b { b as int } else { a as int },
        ),
{
    if a == b {
        return None;
    }
    let low: u16 = if a < b { a as u16 } else { b as u16 };
    let high: u16 = if a < b { b as u16 } else { a as u16 };
    assert(high * (high - 1) <= 255 * 254) by (nonlinear_arith)
        requires
            1 <= high <= 255,
    ;
    let code: u16 = high * (high - 1) / 2 + low;
    if code > 255 {
        None
    } else {
        Some(code as u8)
    }
}

/// The pair with number `code`, smaller element first.
pub fn decode_upair(code: u8) -> (r: (u8, u8))
    ensures
        r.0 < r.1,
        pair_code(r.0 as int, r.1 as int) == code,
        (r.0 as int, r.1 as int) == pair_of(code as int),
{
    let mut high: u8 = 1;
    let mut base: u8 = 0;
    proof {
        assert(pair_count(1) == 0) by (nonlinear_arith);
    }
    while (base as u16) + (high as u16) <= code as u16
        invariant
            1 <= high,
            base == pair_count(high as int),
            base <= code,
            high <= base + 1,
        decreases code - base,
    {
        proof {
            lemma_pair_count_step(high as int);
        }
        base = base + high;
        high = high + 1;
    }
    proof {
        lemma_pair_count_step(high as int);
        lemma_pair_of_code((code - base) as int, high as int);
    }
    (code - base, high)
}

} // verus!
