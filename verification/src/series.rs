//! The mathematics of the estimator, over an unbounded sequence of integer samples.
//!
//! A history is cut into consecutive blocks of `tau` samples. Three neighbouring
//! blocks give one second difference; the Allan variance at `tau` is the sum of the
//! squared second differences of the block averages, divided by twice their number.
//! Everything here is stated over block sums, which stay integers: a second
//! difference of block sums is `tau` times the second difference of block averages.
use vstd::prelude::*;
use vstd::arithmetic::div_mod::lemma_fundamental_div_mod;
use vstd::arithmetic::div_mod::lemma_fundamental_div_mod_converse;

verus! {

/// Sum of the samples at positions `lo..hi`.
pub open spec fn range_sum(h: Seq<int>, lo: int, hi: int) -> int
    decreases hi - lo,
{
    if hi <= lo {
        0
    } else {
        range_sum(h, lo, hi - 1) + h[hi - 1]
    }
}

/// Number of complete blocks of `tau` samples in the history.
pub open spec fn block_count(h: Seq<int>, tau: int) -> int {
    h.len() as int / tau
}

/// Sum of the samples of block `k`, which spans positions `k * tau .. (k + 1) * tau`.
pub open spec fn block_sum(h: Seq<int>, tau: int, k: int) -> int {
    range_sum(h, k * tau, (k + 1) * tau)
}

/// Second difference of the block sums at blocks `k`, `k + 1` and `k + 2`.
pub open spec fn second_difference(h: Seq<int>, tau: int, k: int) -> int {
    block_sum(h, tau, k + 2) - 2 * block_sum(h, tau, k + 1) + block_sum(h, tau, k)
}

/// Number of second differences that the complete blocks give: two fewer than
/// the blocks, and none below three blocks.
pub open spec fn difference_count(h: Seq<int>, tau: int) -> int {
    if block_count(h, tau) >= 3 {
        block_count(h, tau) - 2
    } else {
        0
    }
}

/// Sum of the squares of the first `n` second differences.
pub open spec fn squares(h: Seq<int>, tau: int, n: int) -> int
    decreases n,
{
    if n <= 0 {
        0
    } else {
        squares(h, tau, n - 1) + second_difference(h, tau, n - 1) * second_difference(
            h,
            tau,
            n - 1,
        )
    }
}

/// Sum of the squares of all second differences of the history at `tau`.
pub open spec fn sum_of_squares(h: Seq<int>, tau: int) -> int {
    squares(h, tau, difference_count(h, tau))
}

/// Every sample is a 64-bit signed value.
pub open spec fn bounded(h: Seq<int>) -> bool {
    forall|i: int| 0 <= i < h.len() ==> i64::MIN <= #[trigger] h[i] <= i64::MAX
}

/// The history with `c` added to every sample.
pub open spec fn shifted(h: Seq<int>, c: int) -> Seq<int> {
    Seq::new(h.len(), |i: int| h[i] + c)
}

/// Every sample is zero.
pub open spec fn all_zero(h: Seq<int>) -> bool {
    forall|i: int| 0 <= i < h.len() ==> #[trigger] h[i] == 0
}

/// Where block `k` starts and ends, in linear terms.
pub proof fn lemma_block_span(tau: int, k: int, n: int)
    requires
        tau > 0,
        0 <= k < n,
    ensures
        0 <= k * tau,
        (k + 1) * tau == k * tau + tau,
        (k + 1) * tau <= n * tau,
{
    assert(0 <= k * tau) by (nonlinear_arith)
        requires
            tau > 0,
            0 <= k,
    ;
    assert((k + 1) * tau == k * tau + tau) by (nonlinear_arith);
    assert((k + 1) * tau <= n * tau) by (nonlinear_arith)
        requires
            tau > 0,
            k + 1 <= n,
    ;
}

/// How quotient and remainder move when the history grows by one sample.
pub proof fn lemma_div_mod_step(n: int, tau: int)
    requires
        n >= 0,
        tau > 0,
    ensures
        n == (n / tau) * tau + n % tau,
        0 <= n % tau < tau,
        0 <= n / tau <= n,
        n % tau + 1 < tau ==> (n + 1) / tau == n / tau && (n + 1) % tau == n % tau + 1,
        n % tau + 1 == tau ==> (n + 1) / tau == n / tau + 1 && (n + 1) % tau == 0,
{
    let q = n / tau;
    let r = n % tau;
    lemma_fundamental_div_mod(n, tau);
    assert(n == q * tau + r) by (nonlinear_arith)
        requires
            n == tau * q + r,
    ;
    assert(0 <= q <= n) by (nonlinear_arith)
        requires
            n == q * tau + r,
            0 <= r < tau,
            n >= 0,
            tau > 0,
    ;
    if r + 1 < tau {
        lemma_fundamental_div_mod_converse(n + 1, tau, q, r + 1);
    } else {
        assert(n + 1 == (q + 1) * tau + 0) by (nonlinear_arith)
            requires
                n == q * tau + r,
                r + 1 == tau,
        ;
        lemma_fundamental_div_mod_converse(n + 1, tau, q + 1, 0);
    }
}

/// A history holds three complete blocks exactly when it holds `3 * tau` samples.
pub proof fn lemma_three_blocks(n: int, tau: int)
    requires
        n >= 0,
        tau > 0,
    ensures
        n / tau >= 3 <==> n >= 3 * tau,
{
    let q = n / tau;
    let r = n % tau;
    lemma_div_mod_step(n, tau);
    assert(q >= 3 <==> n >= 3 * tau) by (nonlinear_arith)
        requires
            n == q * tau + r,
            0 <= r < tau,
    ;
}

/// Two histories that agree on `lo..hi` have the same sum there.
pub proof fn lemma_range_sum_agree(a: Seq<int>, b: Seq<int>, lo: int, hi: int)
    requires
        0 <= lo,
        hi <= a.len(),
        hi <= b.len(),
        forall|i: int| lo <= i < hi ==> a[i] == b[i],
    ensures
        range_sum(a, lo, hi) == range_sum(b, lo, hi),
    decreases hi - lo,
{
    if hi > lo {
        lemma_range_sum_agree(a, b, lo, hi - 1);
    }
}

/// A sum of 64-bit samples is bounded by the number of samples summed.
pub proof fn lemma_range_sum_bound(h: Seq<int>, lo: int, hi: int)
    requires
        0 <= lo <= hi <= h.len(),
        bounded(h),
    ensures
        -(hi - lo) * 0x8000_0000_0000_0000 <= range_sum(h, lo, hi) <= (hi - lo)
            * 0x7fff_ffff_ffff_ffff,
    decreases hi - lo,
{
    if hi > lo {
        lemma_range_sum_bound(h, lo, hi - 1);
    }
}

/// Two histories that agree on their first `m` samples have the same sum over
/// every block that ends within them.
pub proof fn lemma_block_sum_agree(a: Seq<int>, b: Seq<int>, tau: int, k: int, m: int)
    requires
        tau > 0,
        0 <= k,
        (k + 1) * tau <= m,
        m <= a.len(),
        m <= b.len(),
        forall|i: int| 0 <= i < m ==> a[i] == b[i],
    ensures
        block_sum(a, tau, k) == block_sum(b, tau, k),
{
    lemma_block_span(tau, k, k + 1);
    lemma_range_sum_agree(a, b, k * tau, (k + 1) * tau);
}

/// Two histories that agree on their first `m` samples have the same first `n`
/// squared second differences, where the blocks of those lie within them.
pub proof fn lemma_squares_agree(a: Seq<int>, b: Seq<int>, tau: int, n: int, m: int)
    requires
        tau > 0,
        n > 0 ==> (n + 2) * tau <= m,
        m <= a.len(),
        m <= b.len(),
        forall|i: int| 0 <= i < m ==> a[i] == b[i],
    ensures
        squares(a, tau, n) == squares(b, tau, n),
    decreases n,
{
    if n > 0 {
        lemma_block_span(tau, n - 1, n + 2);
        lemma_block_span(tau, n, n + 2);
        lemma_block_span(tau, n + 1, n + 2);
        lemma_squares_agree(a, b, tau, n - 1, m);
        lemma_block_sum_agree(a, b, tau, n - 1, m);
        lemma_block_sum_agree(a, b, tau, n, m);
        lemma_block_sum_agree(a, b, tau, n + 1, m);
    }
}

/// What one more sample does to the model when it leaves the block in progress open:
/// no block is added, and every block sum and squared difference stays as it was.
pub proof fn lemma_push_within_block(h: Seq<int>, x: int, tau: int)
    requires
        tau > 0,
        h.len() % (tau as nat) + 1 < tau,
    ensures
        block_count(h.push(x), tau) == block_count(h, tau),
        h.push(x).len() as int % tau == h.len() as int % tau + 1,
        range_sum(h.push(x), block_count(h, tau) * tau, h.len() as int + 1) == range_sum(
            h,
            block_count(h, tau) * tau,
            h.len() as int,
        ) + x,
        block_count(h, tau) >= 1 ==> block_sum(h.push(x), tau, block_count(h, tau) - 1)
            == block_sum(h, tau, block_count(h, tau) - 1),
        block_count(h, tau) >= 2 ==> block_sum(h.push(x), tau, block_count(h, tau) - 2)
            == block_sum(h, tau, block_count(h, tau) - 2),
        sum_of_squares(h.push(x), tau) == sum_of_squares(h, tau),
{
    let n = h.len() as int;
    let q = n / tau;
    let g = h.push(x);
    lemma_div_mod_step(n, tau);
    assert(0 <= q * tau <= n) by (nonlinear_arith)
        requires
            n == q * tau + n % tau,
            0 <= n % tau,
            0 <= q,
            tau > 0,
    ;
    lemma_range_sum_agree(g, h, q * tau, n);
    if q >= 1 {
        lemma_block_span(tau, q - 1, q);
        lemma_block_sum_agree(g, h, tau, q - 1, n);
    }
    if q >= 2 {
        lemma_block_span(tau, q - 2, q);
        lemma_block_sum_agree(g, h, tau, q - 2, n);
    }
    let m = difference_count(h, tau);
    if m > 0 {
        assert((m + 2) * tau <= n) by (nonlinear_arith)
            requires
                m + 2 == q,
                q * tau <= n,
        ;
    }
    lemma_squares_agree(g, h, tau, m, n);
}

/// What one more sample does to the model when it completes a block: the block's sum
/// is the sum in progress plus the sample, and from the third block on one squared
/// second difference is added.
pub proof fn lemma_push_completes_block(h: Seq<int>, x: int, tau: int)
    requires
        tau > 0,
        h.len() % (tau as nat) + 1 == tau,
    ensures
        block_count(h.push(x), tau) == block_count(h, tau) + 1,
        h.push(x).len() as int % tau == 0,
        (block_count(h, tau) + 1) * tau == h.len() + 1,
        block_sum(h.push(x), tau, block_count(h, tau)) == range_sum(
            h,
            block_count(h, tau) * tau,
            h.len() as int,
        ) + x,
        block_count(h, tau) >= 1 ==> block_sum(h.push(x), tau, block_count(h, tau) - 1)
            == block_sum(h, tau, block_count(h, tau) - 1),
        block_count(h, tau) >= 2 ==> block_sum(h.push(x), tau, block_count(h, tau) - 2)
            == block_sum(h, tau, block_count(h, tau) - 2),
        block_count(h, tau) < 2 ==> sum_of_squares(h.push(x), tau) == 0 && sum_of_squares(h, tau)
            == 0,
        block_count(h, tau) >= 2 ==> sum_of_squares(h.push(x), tau) == sum_of_squares(h, tau)
            + second_difference(h.push(x), tau, block_count(h, tau) - 2) * second_difference(
            h.push(x),
            tau,
            block_count(h, tau) - 2,
        ),
{
    let n = h.len() as int;
    let q = n / tau;
    let g = h.push(x);
    lemma_div_mod_step(n, tau);
    assert(0 <= q * tau <= n) by (nonlinear_arith)
        requires
            n == q * tau + n % tau,
            0 <= n % tau,
            0 <= q,
            tau > 0,
    ;
    assert((q + 1) * tau == n + 1) by (nonlinear_arith)
        requires
            n == q * tau + n % tau,
            n % tau + 1 == tau,
    ;
    lemma_range_sum_agree(g, h, q * tau, n);
    assert(g[n] == x);
    assert(range_sum(g, q * tau, n + 1) == range_sum(g, q * tau, n) + g[n]);
    if q >= 1 {
        lemma_block_span(tau, q - 1, q);
        lemma_block_sum_agree(g, h, tau, q - 1, n);
    }
    if q >= 2 {
        lemma_block_span(tau, q - 2, q);
        lemma_block_sum_agree(g, h, tau, q - 2, n);
        let m = q - 2;
        assert(difference_count(g, tau) == m + 1);
        assert(difference_count(h, tau) == m);
        if m > 0 {
            assert((m + 2) * tau <= n);
        }
        lemma_squares_agree(g, h, tau, m, n);
        assert(squares(g, tau, m + 1) == squares(g, tau, m) + second_difference(g, tau, m)
            * second_difference(g, tau, m));
    }
}

/// A sum of squares is never negative.
pub proof fn lemma_squares_nonnegative(h: Seq<int>, tau: int, n: int)
    ensures
        squares(h, tau, n) >= 0,
    decreases n,
{
    if n > 0 {
        lemma_squares_nonnegative(h, tau, n - 1);
        let d = second_difference(h, tau, n - 1);
        assert(d * d >= 0) by (nonlinear_arith);
    }
}

/// Adding `c` to every sample adds `c` times the width to a sum.
pub proof fn lemma_range_sum_shifted(h: Seq<int>, c: int, lo: int, hi: int)
    requires
        0 <= lo <= hi <= h.len(),
    ensures
        range_sum(shifted(h, c), lo, hi) == range_sum(h, lo, hi) + c * (hi - lo),
    decreases hi - lo,
{
    if hi > lo {
        lemma_range_sum_shifted(h, c, lo, hi - 1);
        assert(c * (hi - lo) == c * (hi - 1 - lo) + c) by (nonlinear_arith);
    } else {
        assert(c * (hi - lo) == 0) by (nonlinear_arith)
            requires
                hi - lo == 0,
        ;
    }
}

/// A second difference does not see a constant added to every sample.
pub proof fn lemma_second_difference_shifted(h: Seq<int>, c: int, tau: int, k: int)
    requires
        tau > 0,
        0 <= k,
        (k + 3) * tau <= h.len(),
    ensures
        second_difference(shifted(h, c), tau, k) == second_difference(h, tau, k),
{
    lemma_block_span(tau, k, k + 3);
    lemma_block_span(tau, k + 1, k + 3);
    lemma_block_span(tau, k + 2, k + 3);
    lemma_range_sum_shifted(h, c, k * tau, (k + 1) * tau);
    lemma_range_sum_shifted(h, c, (k + 1) * tau, (k + 2) * tau);
    lemma_range_sum_shifted(h, c, (k + 2) * tau, (k + 3) * tau);
}

/// The first `n` squared second differences do not see a constant added to every sample.
pub proof fn lemma_squares_shifted(h: Seq<int>, c: int, tau: int, n: int)
    requires
        tau > 0,
        n > 0 ==> (n + 2) * tau <= h.len(),
    ensures
        squares(shifted(h, c), tau, n) == squares(h, tau, n),
    decreases n,
{
    if n > 0 {
        lemma_block_span(tau, n + 1, n + 2);
        lemma_squares_shifted(h, c, tau, n - 1);
        lemma_second_difference_shifted(h, c, tau, n - 1);
    }
}

/// A sum over zeros is zero.
pub proof fn lemma_range_sum_zero(h: Seq<int>, lo: int, hi: int)
    requires
        0 <= lo,
        hi <= h.len(),
        all_zero(h),
    ensures
        range_sum(h, lo, hi) == 0,
    decreases hi - lo,
{
    if hi > lo {
        lemma_range_sum_zero(h, lo, hi - 1);
    }
}

/// The first `n` squared second differences of zeros sum to zero.
pub proof fn lemma_squares_zero(h: Seq<int>, tau: int, n: int)
    requires
        tau > 0,
        n > 0 ==> (n + 2) * tau <= h.len(),
        all_zero(h),
    ensures
        squares(h, tau, n) == 0,
    decreases n,
{
    if n > 0 {
        lemma_block_span(tau, n - 1, n + 2);
        lemma_block_span(tau, n, n + 2);
        lemma_block_span(tau, n + 1, n + 2);
        lemma_squares_zero(h, tau, n - 1);
        lemma_range_sum_zero(h, (n - 1) * tau, n * tau);
        lemma_range_sum_zero(h, n * tau, (n + 1) * tau);
        lemma_range_sum_zero(h, (n + 1) * tau, (n + 2) * tau);
        let d = second_difference(h, tau, n - 1);
        assert(d == 0);
        assert(d * d == 0) by (nonlinear_arith)
            requires
                d == 0,
        ;
    }
}

} // verus!
