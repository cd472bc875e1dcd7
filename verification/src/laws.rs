//! What holds of the estimator for every history of samples.
use vstd::prelude::*;
use crate::deviation::estimate;
use crate::deviation::is_floor_root;
use crate::deviation::DeviationResult;
use crate::engine::can_take;
use crate::engine::Engine;
use crate::series::all_zero;
use crate::series::block_count;
use crate::series::difference_count;
use crate::series::lemma_div_mod_step;
use crate::series::lemma_squares_shifted;
use crate::series::lemma_squares_zero;
use crate::series::lemma_three_blocks;
use crate::series::shifted;
use crate::series::sum_of_squares;

verus! {

/// A query at `tau` is undefined while fewer than `3 * tau` samples have been taken,
/// and defined from the moment there are that many.
pub proof fn lemma_defined_from_three_blocks(h: Seq<int>, tau: u32)
    requires
        tau >= 1,
    ensures
        estimate(h, tau) != DeviationResult::Undefined <==> h.len() >= 3 * tau,
{
}

/// A query that is defined stays defined whatever samples follow.
pub proof fn lemma_defined_for_good(h: Seq<int>, more: Seq<int>, tau: u32)
    requires
        estimate(h, tau) != DeviationResult::Undefined,
    ensures
        estimate(h + more, tau) != DeviationResult::Undefined,
{
}

/// Between two states of an engine of which the later has taken every sample of the
/// earlier and then some, no query goes from defined back to undefined.
pub proof fn lemma_engine_never_forgets(earlier: &Engine, later: &Engine, more: Seq<int>, tau: u32)
    requires
        later.ladder() == earlier.ladder(),
        later@ == earlier@ + more,
        earlier.answer(tau).is_some(),
        earlier.answer(tau) != Some(DeviationResult::Undefined),
    ensures
        later.answer(tau).is_some(),
        later.answer(tau) != Some(DeviationResult::Undefined),
{
    lemma_defined_for_good(earlier@, more, tau);
}

/// Adding a constant to every sample changes no sum of squared second differences.
pub proof fn lemma_sum_of_squares_shifted(h: Seq<int>, c: int, tau: int)
    requires
        tau >= 1,
    ensures
        sum_of_squares(shifted(h, c), tau) == sum_of_squares(h, tau),
{
    let n = h.len() as int;
    let m = difference_count(h, tau);
    lemma_div_mod_step(n, tau);
    assert(shifted(h, c).len() == h.len());
    if m > 0 {
        assert((m + 2) * tau <= n) by (nonlinear_arith)
            requires
                n == (m + 2) * tau + n % tau,
                0 <= n % tau,
        ;
    }
    lemma_squares_shifted(h, c, tau, m);
}

/// Adding a constant to every sample changes no answer: variance and deviation at
/// every interval are those of the samples as they were.
pub proof fn lemma_offset_invariance(h: Seq<int>, c: int, tau: u32)
    ensures
        estimate(shifted(h, c), tau) == estimate(h, tau),
{
    assert(shifted(h, c).len() == h.len());
    if tau >= 1 {
        lemma_sum_of_squares_shifted(h, c, tau as int);
    }
}

/// A sample that a history can take can also be taken, moved by `c`, by the history
/// moved by `c`.
pub proof fn lemma_offset_keeps_room(ladder: Seq<u32>, h: Seq<int>, x: int, c: int)
    requires
        forall|i: int| 0 <= i < ladder.len() ==> ladder[i] >= 1,
    ensures
        can_take(ladder, shifted(h, c), x + c) == can_take(ladder, h, x),
{
    assert(shifted(h, c).len() == h.len());
    assert(shifted(h, c).push(x + c) =~= shifted(h.push(x), c));
    assert forall|i: int| 0 <= i < ladder.len() implies sum_of_squares(
        shifted(h, c).push(x + c),
        #[trigger] ladder[i] as int,
    ) == sum_of_squares(h.push(x), ladder[i] as int) by {
        lemma_sum_of_squares_shifted(h.push(x), c, ladder[i] as int);
    }
}

/// Two engines over the same ladder, of which one was fed the samples of the other
/// with a constant added to each, give the same answer to every query.
pub proof fn lemma_engines_agree_under_offset(plain: &Engine, moved: &Engine, c: int, tau: u32)
    requires
        moved.ladder() == plain.ladder(),
        moved@ == shifted(plain@, c),
    ensures
        moved.answer(tau) == plain.answer(tau),
{
    lemma_offset_invariance(plain@, c, tau);
}

/// The whole part of a deviation is one number: two whole numbers whose squares
/// bracket the same variance are equal.
pub proof fn lemma_floor_root_unique(a: int, b: int, numerator: int, denominator: int)
    requires
        denominator > 0,
        is_floor_root(a, numerator, denominator),
        is_floor_root(b, numerator, denominator),
    ensures
        a == b,
{
    assert(a <= b) by (nonlinear_arith)
        requires
            denominator > 0,
            a >= 0,
            b >= 0,
            a * a * denominator <= numerator,
            numerator < (b + 1) * (b + 1) * denominator,
    ;
    assert(b <= a) by (nonlinear_arith)
        requires
            denominator > 0,
            a >= 0,
            b >= 0,
            b * b * denominator <= numerator,
            numerator < (a + 1) * (a + 1) * denominator,
    ;
}

/// A history of zeros has a zero sum of squared second differences.
pub proof fn lemma_sum_of_squares_zero(h: Seq<int>, tau: int)
    requires
        tau >= 1,
        all_zero(h),
    ensures
        sum_of_squares(h, tau) == 0,
{
    let n = h.len() as int;
    let m = difference_count(h, tau);
    lemma_div_mod_step(n, tau);
    if m > 0 {
        assert((m + 2) * tau <= n) by (nonlinear_arith)
            requires
                n == (m + 2) * tau + n % tau,
                0 <= n % tau,
        ;
    }
    lemma_squares_zero(h, tau, m);
}

/// After at least `3 * tau` zeros and nothing else, the query at `tau` is defined
/// with a variance of zero, and the whole part of its deviation is zero.
pub proof fn lemma_zero_input(h: Seq<int>, tau: u32)
    requires
        tau >= 1,
        all_zero(h),
        3 * tau <= h.len() <= u64::MAX,
    ensures
        estimate(h, tau) == (DeviationResult::Defined {
            squares: 0,
            count: (block_count(h, tau as int) - 2) as u64,
            tau,
        }),
        estimate(h, tau).has_value(),
        is_floor_root(0, estimate(h, tau).numerator(), estimate(h, tau).denominator()),
{
    lemma_sum_of_squares_zero(h, tau as int);
    lemma_div_mod_step(h.len() as int, tau as int);
    lemma_three_blocks(h.len() as int, tau as int);
    let count = block_count(h, tau as int) - 2;
    assert(1 <= count <= u64::MAX);
    let den = estimate(h, tau).denominator();
    assert(den == 2 * count * tau * tau);
    assert(0 < 2 * count * tau * tau) by (nonlinear_arith)
        requires
            count >= 1,
            tau >= 1,
    ;
    assert(0 * 0 * den <= 0 < (0 + 1) * (0 + 1) * den) by (nonlinear_arith)
        requires
            den > 0,
    ;
}

/// A history of zeros can always take one more zero, up to the limit of the sample count.
pub proof fn lemma_zeros_are_taken(ladder: Seq<u32>, h: Seq<int>)
    requires
        forall|i: int| 0 <= i < ladder.len() ==> ladder[i] >= 1,
        all_zero(h),
        h.len() < u64::MAX,
    ensures
        can_take(ladder, h, 0),
{
    assert forall|i: int| 0 <= i < ladder.len() implies sum_of_squares(
        h.push(0),
        #[trigger] ladder[i] as int,
    ) <= u128::MAX by {
        lemma_sum_of_squares_zero(h.push(0), ladder[i] as int);
    }
}

} // verus!
