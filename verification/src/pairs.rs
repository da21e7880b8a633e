//! The order in which the unordered pairs of a population are visited.

use vstd::prelude::*;

verus! {

/// The pairs whose first index is `i`, the second ascending from `i + 1` to
/// `n - 1`.
pub open spec fn row(i: int, n: int) -> Seq<(int, int)> {
    Seq::new(
        if n - 1 - i > 0 {
            (n - 1 - i) as nat
        } else {
            0
        },
        |t: int| (i, i + 1 + t),
    )
}

/// The rows of all first indices below `i`, in ascending order.
pub open spec fn rows(i: int, n: int) -> Seq<(int, int)>
    decreases i,
{
    if i <= 0 {
        Seq::empty()
    } else {
        rows(i - 1, n) + row(i - 1, n)
    }
}

/// The visiting order for a population of `n`: every pair `(i, j)` with
/// `i < j`, by ascending `i`, then by ascending `j`.
pub open spec fn schedule(n: int) -> Seq<(int, int)> {
    rows(n, n)
}

/// The place of the pair `(i, j)` in the visiting order for `n`.
pub open spec fn rank(i: int, j: int, n: int) -> int {
    rows(i, n).len() + (j - i - 1)
}

/// Twice the number of pairs in the first `i` rows is `i * (2n - i - 1)`.
pub proof fn rows_len(i: int, n: int)
    requires
        0 <= i <= n,
    ensures
        2 * rows(i, n).len() == i * (2 * n - i - 1),
    decreases i,
{
    if i > 0 {
        rows_len(i - 1, n);
        assert(rows(i, n).len() == rows(i - 1, n).len() + (n - i));
        assert(i * (2 * n - i - 1) == (i - 1) * (2 * n - (i - 1) - 1) + 2 * (n - i))
            by (nonlinear_arith);
    } else {
        assert(rows(i, n).len() == 0);
        assert(i * (2 * n - i - 1) == 0) by (nonlinear_arith)
            requires
                i == 0,
        ;
    }
}

/// Each row ends where the next begins: the first `i + 1` rows are the first
/// `i` rows and row `i` after them.
pub proof fn rows_step(i: int, n: int)
    requires
        0 <= i < n,
    ensures
        rows(i + 1, n) == rows(i, n) + row(i, n),
        rows(i + 1, n).len() == rows(i, n).len() + (n - 1 - i),
{
}

/// The rows below `a` open the rows below any `b` from `a` on.
pub proof fn rows_prefix(a: int, b: int, n: int)
    requires
        0 <= a <= b,
    ensures
        rows(a, n).len() <= rows(b, n).len(),
        forall|k: int| 0 <= k < rows(a, n).len() ==> rows(b, n)[k] == rows(a, n)[k],
    decreases b - a,
{
    if a < b {
        rows_prefix(a, b - 1, n);
    }
}

/// The pair `(i, j)` stands at its rank.
pub proof fn pair_at_rank(i: int, j: int, n: int)
    requires
        0 <= i < j < n,
    ensures
        0 <= rank(i, j, n) < schedule(n).len(),
        schedule(n)[rank(i, j, n)] == (i, j),
{
    rows_step(i, n);
    rows_prefix(i + 1, n, n);
    let k = rank(i, j, n);
    assert(rows(i + 1, n)[k] == row(i, n)[j - i - 1]);
}

/// What stands at place `k` among the first `b` rows is a pair in ascending
/// order below `n`, and `k` is its rank.
pub proof fn rank_of_entry(k: int, b: int, n: int)
    requires
        0 <= b <= n,
        0 <= k < rows(b, n).len(),
    ensures
        0 <= rows(b, n)[k].0 < rows(b, n)[k].1 < n,
        rows(b, n)[k].0 < b,
        rank(rows(b, n)[k].0, rows(b, n)[k].1, n) == k,
    decreases b,
{
    if b > 0 {
        if k < rows(b - 1, n).len() {
            rank_of_entry(k, b - 1, n);
        } else {
            let t = k - rows(b - 1, n).len();
            assert(rows(b, n)[k] == row(b - 1, n)[t]);
        }
    }
}

/// The number of pairs that are visited in a population of `n`.
pub fn pair_count(n: usize) -> (count: u128)
    ensures
        count == schedule(n as int).len(),
        count == n * (n - 1) / 2,
{
    proof {
        rows_len(n as int, n as int);
        assert(n * (2 * n - n - 1) == n * (n - 1)) by (nonlinear_arith);
    }
    if n == 0 {
        0
    } else {
        let a: u128 = n as u128;
        assert(a * (a - 1) <= u128::MAX) by (nonlinear_arith)
            requires
                1 <= a <= 0xffff_ffff_ffff_ffff,
        ;
        a * (a - 1) / 2
    }
}

/// In a population of `n`, exactly `n * (n - 1) / 2` pairs are visited; each
/// visit is to a pair of two different agents, the lower index first; and
/// each such pair is visited exactly once, at its rank.
pub proof fn schedule_visits_each_pair_once(n: int)
    requires
        0 <= n,
    ensures
        schedule(n).len() == n * (n - 1) / 2,
        forall|k: int|
            0 <= k < schedule(n).len() ==> 0 <= (#[trigger] schedule(n)[k]).0 < schedule(n)[k].1
                < n,
        forall|i: int, j: int|
            0 <= i < j < n ==> 0 <= #[trigger] rank(i, j, n) < schedule(n).len() && schedule(
                n,
            )[rank(i, j, n)] == (i, j),
        forall|k: int|
            0 <= k < schedule(n).len() ==> rank((#[trigger] schedule(n)[k]).0, schedule(n)[k].1, n)
                == k,
        schedule(n).no_duplicates(),
{
    rows_len(n, n);
    assert(n * (2 * n - n - 1) == n * (n - 1)) by (nonlinear_arith);
    assert forall|k: int| 0 <= k < schedule(n).len() implies 0 <= (#[trigger] schedule(n)[k]).0
        < schedule(n)[k].1 < n && rank(schedule(n)[k].0, schedule(n)[k].1, n) == k by {
        rank_of_entry(k, n, n);
    }
    assert forall|i: int, j: int| 0 <= i < j < n implies 0 <= #[trigger] rank(i, j, n) < schedule(
        n,
    ).len() && schedule(n)[rank(i, j, n)] == (i, j) by {
        pair_at_rank(i, j, n);
    }
    assert forall|k1: int, k2: int|
        0 <= k1 < schedule(n).len() && 0 <= k2 < schedule(n).len() && k1 != k2 implies schedule(
        n,
    )[k1] != schedule(n)[k2] by {
        rank_of_entry(k1, n, n);
        rank_of_entry(k2, n, n);
    }
}

} // verus!
