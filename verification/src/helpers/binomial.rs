//! Binomial coefficients, by Pascal's rule.

use vstd::prelude::*;

verus! {

/// The number of ways to pick `k` things out of `n`.
pub open spec fn binomial(n: int, k: int) -> int
    decreases n,
{
    if k < 0 || n < 0 {
        0
    } else if k == 0 {
        1
    } else if n == 0 {
        0
    } else {
        binomial(n - 1, k - 1) + binomial(n - 1, k)
    }
}

/// Two to the power of `n`.
pub open spec fn two_to(n: int) -> int
    decreases n,
{
    if n <= 0 {
        1
    } else {
        2 * two_to(n - 1)
    }
}

/// There are at most as many ways to pick things out of `n` as there are
/// subsets of them.
pub proof fn lemma_binomial_bounds(n: int, k: int)
    ensures
        0 <= binomial(n, k) <= two_to(n),
        two_to(n) >= 1,
    decreases n,
{
    if !(k < 0 || n < 0) && n != 0 {
        lemma_binomial_bounds(n - 1, k - 1);
        lemma_binomial_bounds(n - 1, k);
    } else if n > 0 {
        lemma_binomial_bounds(n - 1, k);
    }
}

/// With more to pick from there are no fewer ways to pick.
pub proof fn lemma_binomial_monotone(n: int, m: int, k: int)
    requires
        n <= m,
    ensures
        binomial(n, k) <= binomial(m, k),
    decreases m - n,
{
    if n < m {
        lemma_binomial_monotone(n, m - 1, k);
        lemma_binomial_bounds(m - 1, k - 1);
        lemma_binomial_bounds(m - 1, k);
    }
}

/// There is no way to pick more than there is.
pub proof fn lemma_binomial_too_many(n: int, k: int)
    requires
        0 <= n < k,
    ensures
        binomial(n, k) == 0,
    decreases n,
{
    if n > 0 {
        lemma_binomial_too_many(n - 1, k - 1);
        lemma_binomial_too_many(n - 1, k);
    }
}

/// The number of ways to pick `k` things out of `n`.
pub fn binomial_coefficient(n: u8, k: u8) -> (r: usize)
    requires
        n <= 16,
    ensures
        r == binomial(n as int, k as int),
        r <= 65536,
{
    proof {
        lemma_binomial_small(n as int, k as int);
    }
    if k > n {
        proof {
            lemma_binomial_too_many(n as int, k as int);
        }
        return 0;
    }
    let mut row: [usize; 17] = [0, 0, 0, 0, 0, 0, 0, 0, 0, 0, 0, 0, 0, 0, 0, 0, 0];
    row[0] = 1;
    let mut m: u8 = 0;
    while m < n
        invariant
            m <= n <= 16,
            forall|i: int| 0 <= i <= 16 ==> row[i] == #[trigger] binomial(m as int, i),
        decreases n - m,
    {
        let mut i: usize = 16;
        while i > 0
            invariant
                m < 16,
                i <= 16,
                forall|j: int| 0 <= j <= i ==> row[j] == #[trigger] binomial(m as int, j),
                forall|j: int| i < j <= 16 ==> row[j] == #[trigger] binomial(m as int + 1, j),
            decreases i,
        {
            proof {
                lemma_binomial_small(m as int + 1, i as int);
                assert(binomial(m as int, i as int) == row[i as int]);
                assert(binomial(m as int, i as int - 1) == row[i as int - 1]);
            }
            row[i] = row[i] + row[i - 1];
            i = i - 1;
        }
        assert(row[0] == binomial(m as int, 0) == binomial(m as int + 1, 0));
        m = m + 1;
    }
    assert(row[k as int] == binomial(n as int, k as int));
    row[k as usize]
}

/// Out of sixteen things or fewer there are at most 65536 ways to pick.
pub proof fn lemma_binomial_small(n: int, k: int)
    requires
        n <= 16,
    ensures
        0 <= binomial(n, k) <= 65536,
{
    lemma_binomial_bounds(n, k);
    lemma_two_to_sixteen(n);
}

/// Up to sixteen, powers of two stay within 65536.
proof fn lemma_two_to_sixteen(n: int)
    requires
        n <= 16,
    ensures
        two_to(n) <= 65536,
    decreases 16 - n,
{
    if n < 16 {
        lemma_two_to_sixteen(n + 1);
    } else {
        assert(two_to(16) == 65536) by {
            reveal_with_fuel(two_to, 18);
        }
    }
}

} // verus!
