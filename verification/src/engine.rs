//! The stability engine: one accumulator per averaging interval, fed sample by sample.
//!
//! The engine keeps no history. For each interval of its ladder it holds the sum of the
//! block in progress, the sums of the last two complete blocks and the running sum of
//! squared second differences. What these hold is stated against the whole sequence of
//! samples taken so far, which exists in proofs only.
use vstd::prelude::*;
use crate::deviation::estimate;
use crate::deviation::DeviationResult;
use crate::ladder::is_ladder;
use crate::ladder::ladder;
use crate::ladder::Style;
use crate::series::block_sum;
use crate::series::bounded;
use crate::series::lemma_block_span;
use crate::series::lemma_div_mod_step;
use crate::series::lemma_push_completes_block;
use crate::series::lemma_push_within_block;
use crate::series::lemma_range_sum_bound;
use crate::series::lemma_squares_nonnegative;
use crate::series::lemma_three_blocks;
use crate::series::range_sum;
use crate::series::second_difference;
use crate::series::sum_of_squares;

verus! {

/// A sample was turned away because an accumulator could not hold what it adds.
#[derive(Clone, Copy, Debug, PartialEq, Eq, Structural)]
pub struct Saturated;

/// A history can take one more sample when it is not yet at the limit of the sample
/// count and every interval's sum of squares still fits its accumulator afterwards.
pub open spec fn can_take(ladder: Seq<u32>, h: Seq<int>, x: int) -> bool {
    &&& h.len() < u64::MAX
    &&& forall|i: int|
        0 <= i < ladder.len() ==> sum_of_squares(h.push(x), #[trigger] ladder[i] as int)
            <= u128::MAX
}

/// The accumulator of one averaging interval.
#[derive(Clone, Copy)]
struct Level {
    tau: u32,
    /// Samples in the block in progress.
    filled: u32,
    /// Sum of the block in progress.
    partial: i128,
    /// Complete blocks so far.
    blocks: u64,
    /// Sum of the newest complete block.
    last: i128,
    /// Sum of the complete block before it.
    prior: i128,
    /// Sum of the squared second differences.
    squares: u128,
}

impl Level {
    /// The accumulator holds what the model says of the history `h`.
    spec fn tracks(self, h: Seq<int>) -> bool {
        let n = h.len() as int;
        let tau = self.tau as int;
        &&& tau >= 1
        &&& self.blocks == n / tau
        &&& self.filled == n % tau
        &&& self.partial == range_sum(h, self.blocks * tau, n)
        &&& self.last == if self.blocks >= 1 {
            block_sum(h, tau, self.blocks - 1)
        } else {
            0
        }
        &&& self.prior == if self.blocks >= 2 {
            block_sum(h, tau, self.blocks - 2)
        } else {
            0
        }
        &&& self.squares == sum_of_squares(h, tau)
    }

    fn fresh(tau: u32) -> (level: Level)
        requires
            tau >= 1,
        ensures
            level.tau == tau,
            level.tracks(Seq::empty()),
    {
        proof {
            lemma_div_mod_step(0, tau as int);
        }
        Level { tau, filled: 0, partial: 0, blocks: 0, last: 0, prior: 0, squares: 0 }
    }

    /// The accumulator after one more sample, or `None` where the sum of squares
    /// would no longer fit.
    fn advance(&self, sample: i64, Ghost(h): Ghost<Seq<int>>) -> (next: Option<Level>)
        requires
            self.tracks(h),
            bounded(h),
            h.len() < u64::MAX,
        ensures
            match next {
                Some(level) => level.tau == self.tau && level.tracks(h.push(sample as int)),
                None => sum_of_squares(h.push(sample as int), self.tau as int) > u128::MAX,
            },
    {
        let ghost n = h.len() as int;
        let ghost tau = self.tau as int;
        let ghost q = self.blocks as int;
        let ghost g = h.push(sample as int);
        proof {
            lemma_div_mod_step(n, tau);
            assert(0 <= q * tau <= n) by (nonlinear_arith)
                requires
                    n == q * tau + n % tau,
                    0 <= n % tau,
                    0 <= q,
                    tau > 0,
            ;
            lemma_range_sum_bound(h, q * tau, n);
            if q >= 1 {
                lemma_block_span(tau, q - 1, q);
                lemma_range_sum_bound(h, (q - 1) * tau, q * tau);
            }
            if q >= 2 {
                lemma_block_span(tau, q - 2, q);
                lemma_range_sum_bound(h, (q - 2) * tau, (q - 1) * tau);
            }
        }
        let partial: i128 = self.partial + sample as i128;
        if self.filled + 1 < self.tau {
            proof {
                lemma_push_within_block(h, sample as int, tau);
            }
            Some(
                Level {
                    tau: self.tau,
                    filled: self.filled + 1,
                    partial,
                    blocks: self.blocks,
                    last: self.last,
                    prior: self.prior,
                    squares: self.squares,
                },
            )
        } else {
            proof {
                lemma_push_completes_block(h, sample as int, tau);
            }
            let mut total: u128 = self.squares;
            if self.blocks >= 2 {
                let d: i128 = partial - 2 * self.last + self.prior;
                let a: u128 = if d < 0 {
                    (0 - d) as u128
                } else {
                    d as u128
                };
                assert(d == second_difference(g, tau, q - 2));
                assert(a * a == d * d) by (nonlinear_arith)
                    requires
                        a == d || a == -d,
                ;
                proof {
                    lemma_squares_nonnegative(h, tau, q - 2);
                }
                match a.checked_mul(a) {
                    None => {
                        return None;
                    },
                    Some(square) => match total.checked_add(square) {
                        None => {
                            return None;
                        },
                        Some(sum) => {
                            total = sum;
                        },
                    },
                }
            }
            Some(
                Level {
                    tau: self.tau,
                    filled: 0,
                    partial: 0,
                    blocks: self.blocks + 1,
                    last: partial,
                    prior: self.last,
                    squares: total,
                },
            )
        }
    }

    /// What the accumulator gives when queried.
    fn result(&self, Ghost(h): Ghost<Seq<int>>) -> (r: DeviationResult)
        requires
            self.tracks(h),
        ensures
            r == estimate(h, self.tau),
    {
        proof {
            lemma_three_blocks(h.len() as int, self.tau as int);
        }
        if self.blocks >= 3 {
            DeviationResult::Defined {
                squares: self.squares,
                count: self.blocks - 2,
                tau: self.tau,
            }
        } else {
            DeviationResult::Undefined
        }
    }
}

/// The stability engine.
pub struct Engine {
    levels: Vec<Level>,
    samples: u64,
    history: Ghost<Seq<int>>,
}

impl View for Engine {
    type V = Seq<int>;

    /// Every sample taken so far, oldest first.
    closed spec fn view(&self) -> Seq<int> {
        self.history@
    }
}

impl Engine {
    /// The averaging intervals that the engine serves, in rising order.
    pub closed spec fn ladder(&self) -> Seq<u32> {
        Seq::new(self.levels@.len(), |i: int| self.levels@[i].tau)
    }

    /// The accumulators hold what the model says of the samples taken so far.
    pub closed spec fn wf(&self) -> bool {
        &&& self.samples == self.history@.len()
        &&& bounded(self.history@)
        &&& forall|i: int|
            0 <= i < self.levels@.len() ==> (#[trigger] self.levels@[i]).tracks(self.history@)
        &&& forall|i: int, j: int|
            0 <= i < j < self.levels@.len() ==> self.levels@[i].tau < self.levels@[j].tau
    }

    /// The engine can take `sample`: see [`can_take`].
    pub open spec fn accepts(&self, sample: i64) -> bool {
        can_take(self.ladder(), self@, sample as int)
    }

    /// What a query at `tau` gives: nothing where the engine does not serve the
    /// interval, else what the samples taken so far give there.
    pub open spec fn answer(&self, tau: u32) -> Option<DeviationResult> {
        if self.ladder().contains(tau) {
            Some(estimate(self@, tau))
        } else {
            None
        }
    }

    /// An engine over the ladder of `style` up to `max_tau` that has seen no sample;
    /// `None` where that ladder is empty.
    pub fn new(style: Style, max_tau: u32) -> (made: Option<Engine>)
        ensures
            made.is_some() == style.serves(max_tau),
            match made {
                Some(engine) => engine.wf() && engine@ == Seq::<int>::empty() && is_ladder(
                    engine.ladder(),
                    style,
                    max_tau,
                ),
                None => true,
            },
    {
        let taus = ladder(style, max_tau);
        if taus.len() == 0 {
            return None;
        }
        assert forall|i: int| 0 <= i < taus@.len() implies taus@[i] >= 1 by {
            assert(taus@.contains(taus@[i]));
        }
        Some(Engine::from_taus(&taus))
    }

    /// An engine over the given intervals that has seen no sample.
    fn from_taus(taus: &Vec<u32>) -> (engine: Engine)
        requires
            forall|i: int| 0 <= i < taus@.len() ==> taus@[i] >= 1,
            forall|i: int, j: int| 0 <= i < j < taus@.len() ==> taus@[i] < taus@[j],
        ensures
            engine.wf(),
            engine@ == Seq::<int>::empty(),
            engine.ladder() == taus@,
    {
        let mut levels: Vec<Level> = Vec::new();
        let mut i: usize = 0;
        while i < taus.len()
            invariant
                i <= taus@.len(),
                levels@.len() == i,
                forall|k: int| 0 <= k < taus@.len() ==> taus@[k] >= 1,
                forall|k: int|
                    0 <= k < i ==> (#[trigger] levels@[k]).tracks(Seq::empty()) && levels@[k].tau
                        == taus@[k],
            decreases taus@.len() - i,
        {
            levels.push(Level::fresh(taus[i]));
            i += 1;
        }
        let engine = Engine { levels, samples: 0, history: Ghost(Seq::empty()) };
        assert(engine.ladder() =~= taus@);
        engine
    }

    /// Number of samples taken so far.
    pub fn samples(&self) -> (n: u64)
        requires
            self.wf(),
        ensures
            n == self@.len(),
    {
        self.samples
    }

    /// The averaging intervals that the engine serves, in rising order.
    pub fn taus(&self) -> (taus: Vec<u32>)
        ensures
            taus@ == self.ladder(),
    {
        let mut taus: Vec<u32> = Vec::new();
        let mut i: usize = 0;
        while i < self.levels.len()
            invariant
                i <= self.levels@.len(),
                taus@.len() == i,
                forall|k: int| 0 <= k < i ==> taus@[k] == self.levels@[k].tau,
            decreases self.levels@.len() - i,
        {
            taus.push(self.levels[i].tau);
            i += 1;
        }
        assert(taus@ =~= self.ladder());
        taus
    }

    /// Takes one sample into every interval's accumulator, or none of them: a sample
    /// that some accumulator cannot hold is turned away and the engine stays as it was.
    pub fn record(&mut self, sample: i64) -> (outcome: Result<(), Saturated>)
        requires
            old(self).wf(),
        ensures
            final(self).wf(),
            final(self).ladder() == old(self).ladder(),
            outcome.is_ok() == old(self).accepts(sample),
            outcome.is_ok() ==> final(self)@ == old(self)@.push(sample as int),
            outcome.is_err() ==> final(self)@ == old(self)@,
    {
        if self.samples == u64::MAX {
            return Err(Saturated);
        }
        let ghost h = self.history@;
        let ghost g = h.push(sample as int);
        let n: usize = self.levels.len();
        let mut i: usize = 0;
        while i < n
            invariant
                i <= n,
                n == self.levels@.len(),
                *self == *old(self),
                self.wf(),
                h == self.history@,
                g == h.push(sample as int),
                h.len() < u64::MAX,
                forall|k: int|
                    0 <= k < i ==> sum_of_squares(g, (#[trigger] self.levels@[k]).tau as int)
                        <= u128::MAX,
            decreases n - i,
        {
            match self.levels[i].advance(sample, Ghost(h)) {
                None => {
                    assert(self.ladder()[i as int] == self.levels@[i as int].tau);
                    return Err(Saturated);
                },
                Some(next) => {},
            }
            i += 1;
        }
        assert(old(self).accepts(sample)) by {
            assert forall|k: int| 0 <= k < self.ladder().len() implies sum_of_squares(
                g,
                #[trigger] self.ladder()[k] as int,
            ) <= u128::MAX by {
                assert(self.ladder()[k] == self.levels@[k].tau);
            }
        }
        let mut i: usize = 0;
        while i < n
            invariant
                i <= n,
                n == self.levels@.len(),
                n == old(self).levels@.len(),
                self.samples == old(self).samples,
                self.history@ == h,
                h == old(self).history@,
                g == h.push(sample as int),
                h.len() < u64::MAX,
                bounded(h),
                forall|k: int|
                    0 <= k < n ==> (#[trigger] self.levels@[k]).tau == old(self).levels@[k].tau,
                forall|k: int| 0 <= k < i ==> (#[trigger] self.levels@[k]).tracks(g),
                forall|k: int| i <= k < n ==> (#[trigger] self.levels@[k]).tracks(h),
                forall|k: int|
                    0 <= k < n ==> sum_of_squares(g, (#[trigger] self.levels@[k]).tau as int)
                        <= u128::MAX,
            decreases n - i,
        {
            let level: Level = self.levels[i];
            match level.advance(sample, Ghost(h)) {
                Some(next) => {
                    self.levels.set(i, next);
                },
                None => {},
            }
            i += 1;
        }
        self.samples = self.samples + 1;
        proof {
            self.history@ = g;
        }
        assert(final(self).ladder() =~= old(self).ladder());
        Ok(())
    }

    /// The answer at every interval of the ladder, in the ladder's order.
    pub fn snapshot(&self) -> (answers: Vec<(u32, DeviationResult)>)
        requires
            self.wf(),
        ensures
            answers@.len() == self.ladder().len(),
            forall|i: int|
                0 <= i < answers@.len() ==> #[trigger] answers@[i] == (
                    self.ladder()[i],
                    estimate(self@, self.ladder()[i]),
                ),
    {
        let mut answers: Vec<(u32, DeviationResult)> = Vec::new();
        let mut i: usize = 0;
        while i < self.levels.len()
            invariant
                i <= self.levels@.len(),
                self.wf(),
                answers@.len() == i,
                forall|k: int|
                    0 <= k < i ==> #[trigger] answers@[k] == (
                        self.levels@[k].tau,
                        estimate(self@, self.levels@[k].tau),
                    ),
            decreases self.levels@.len() - i,
        {
            let level: Level = self.levels[i];
            answers.push((level.tau, level.result(Ghost(self.history@))));
            i += 1;
        }
        answers
    }

    /// The deviation at the averaging interval `tau`, where the engine serves it.
    pub fn get(&self, tau: u32) -> (result: Option<DeviationResult>)
        requires
            self.wf(),
        ensures
            result == self.answer(tau),
    {
        let mut i: usize = 0;
        while i < self.levels.len()
            invariant
                i <= self.levels@.len(),
                self.wf(),
                forall|k: int| 0 <= k < i ==> (#[trigger] self.levels@[k]).tau != tau,
            decreases self.levels@.len() - i,
        {
            if self.levels[i].tau == tau {
                assert(self.ladder()[i as int] == tau);
                return Some(self.levels[i].result(Ghost(self.history@)));
            }
            i += 1;
        }
        assert(!self.ladder().contains(tau)) by {
            if self.ladder().contains(tau) {
                let k = choose|k: int| 0 <= k < self.ladder().len() && self.ladder()[k] == tau;
                assert(self.levels@[k].tau == tau);
            }
        }
        None
    }
}

} // verus!
