//! Binomial coefficients for the Bernstein blending weights.
//!
//! The table is built once with Pascal's triangle and read many times by
//! the surface engine; entries above the diagonal are conventionally one
//! (they match the table's initialization and are never read there).

use vstd::prelude::*;

verus! {

/// Mathematical binomial coefficient `C(i, j)`, extended with the
/// convention that entries with `j > i` are one.
pub open spec fn binom(i: nat, j: nat) -> nat
    decreases i,
{
    if j == 0 || j >= i {
        1
    } else {
        binom((i - 1) as nat, (j - 1) as nat) + binom((i - 1) as nat, j)
    }
}

/// Every binomial coefficient in row `i` is at most `2^i`.
pub proof fn lemma_binom_bound(i: nat, j: nat)
    ensures
        1 <= binom(i, j) <= vstd::arithmetic::power2::pow2(i),
    decreases i,
{
    vstd::arithmetic::power2::lemma_pow2_pos(i);
    if j == 0 || j >= i {
        vstd::arithmetic::power2::lemma_pow2_pos(i);
    } else {
        lemma_binom_bound((i - 1) as nat, (j - 1) as nat);
        lemma_binom_bound((i - 1) as nat, j);
        assert(pow2_sum_holds(i)) by {
            vstd::arithmetic::power2::lemma_pow2_unfold(i);
        };
    }
}

/// `2^i` is twice `2^(i-1)`; stated as a helper so the bound proof can
/// appeal to it by name.
pub open spec fn pow2_sum_holds(i: nat) -> bool {
    i >= 1 ==> vstd::arithmetic::power2::pow2(i)
        == 2 * vstd::arithmetic::power2::pow2((i - 1) as nat)
}

/// A well-formed coefficient table of side `n`: square, and every entry
/// is the (conventionally extended) binomial coefficient.
pub open spec fn table_wf(t: Seq<Vec<u64>>, n: nat) -> bool {
    &&& t.len() == n
    &&& forall|i: int| 0 <= i < n ==> (#[trigger] t[i])@.len() == n
    &&& forall|i: int, j: int|
        0 <= i < n && 0 <= j < n ==> #[trigger] t[i]@[j] == binom(i as nat, j as nat)
}

/// Builds the triangular table of binomial coefficients of side `n` with
/// Pascal's recurrence; entries with `j >= i` stay at their initial one.
pub fn combination_precomputation(n: usize) -> (t: Vec<Vec<u64>>)
    requires
        n <= 63,
    ensures
        table_wf(t@, n as nat),
        t@.len() == n,
{
    let mut t: Vec<Vec<u64>> = Vec::new();
    let mut i: usize = 0;
    while i < n
        invariant
            i <= n <= 63,
            t@.len() == i,
            forall|a: int| 0 <= a < i ==> #[trigger] t@[a]@.len() == n,
            forall|a: int, b: int|
                0 <= a < i && 0 <= b < n
                    ==> #[trigger] t@[a]@[b] == binom(a as nat, b as nat),
        decreases n - i,
    {
        let mut row: Vec<u64> = Vec::new();
        let mut j: usize = 0;
        while j < n
            invariant
                i < n <= 63,
                j <= n,
                row@.len() == j,
                t@.len() == i,
                forall|a: int| 0 <= a < i ==> #[trigger] t@[a]@.len() == n,
                forall|a: int, b: int|
                    0 <= a < i && 0 <= b < n
                        ==> #[trigger] t@[a]@[b] == binom(a as nat, b as nat),
                forall|b: int| 0 <= b < j ==> #[trigger] row@[b] == binom(i as nat, b as nat),
            decreases n - j,
        {
            let v: u64 = if j == 0 || j >= i {
                1
            } else {
                let left: u64 = t[i - 1][j - 1];
                let right: u64 = t[i - 1][j];
                proof {
                    lemma_binom_bound((i - 1) as nat, (j - 1) as nat);
                    lemma_binom_bound((i - 1) as nat, j as nat);
                    lemma_binom_bound(i as nat, j as nat);
                    vstd::arithmetic::power2::lemma_pow2_strictly_increases(i as nat, 64);
                    vstd::arithmetic::power2::lemma2_to64();
                }
                left + right
            };
            row.push(v);
            j += 1;
        }
        t.push(row);
        i += 1;
    }
    t
}

/// Pascal's recurrence and the unit borders, stated of any well-formed
/// table: `t[i][0] == 1`, `t[i][i] == 1`, and every interior entry is the
/// sum of the two entries above it.
pub proof fn lemma_table_pascal(t: Seq<Vec<u64>>, n: nat, i: int, j: int)
    requires
        table_wf(t, n),
        0 <= i < n,
        0 <= j < n,
    ensures
        t[i]@[0] == 1,
        t[i]@[i] == 1,
        0 < j < i ==> t[i]@[j] == t[i - 1]@[j - 1] + t[i - 1]@[j],
{
    assert(t[i]@[0] == binom(i as nat, 0));
    assert(t[i]@[i] == binom(i as nat, i as nat));
    if 0 < j < i {
        assert(t[i]@[j] == binom(i as nat, j as nat));
        assert(binom(i as nat, j as nat)
            == binom((i - 1) as nat, (j - 1) as nat) + binom((i - 1) as nat, j as nat));
    }
}

} // verus!
