//! The answer to a query, and the deviation as a whole number.
//!
//! A variance is kept as the exact fraction that the estimator defines, so the
//! deviation is its square root with no rounding in between. Where a number is
//! wanted, `floor` gives the whole part of that square root.
use vstd::prelude::*;
use vstd::arithmetic::div_mod::lemma_div_denominator;
use vstd::arithmetic::div_mod::lemma_fundamental_div_mod;
use crate::series::block_count;
use crate::series::sum_of_squares;

verus! {

/// What a query at one averaging interval gives.
#[derive(Clone, Copy, Debug, PartialEq, Eq, Structural)]
pub enum DeviationResult {
    /// The deviation is the square root of the variance
    /// `squares / (2 * count * tau * tau)`, in the unit of the samples:
    /// `squares` is the sum of `count` squared second differences of block sums.
    Defined { squares: u128, count: u64, tau: u32 },
    /// Fewer than three blocks of `tau` samples have been completed.
    Undefined,
}

/// What a history of samples gives at the averaging interval `tau`.
pub open spec fn estimate(h: Seq<int>, tau: u32) -> DeviationResult {
    if tau >= 1 && h.len() >= 3 * tau {
        DeviationResult::Defined {
            squares: sum_of_squares(h, tau as int) as u128,
            count: (block_count(h, tau as int) - 2) as u64,
            tau,
        }
    } else {
        DeviationResult::Undefined
    }
}

/// `root` is the whole part of the square root of `numerator / denominator`.
pub open spec fn is_floor_root(root: int, numerator: int, denominator: int) -> bool {
    &&& root >= 0
    &&& root * root * denominator <= numerator
    &&& numerator < (root + 1) * (root + 1) * denominator
}

/// The whole part of the square root of `x`.
pub fn floor_root(x: u128) -> (root: u64)
    ensures
        is_floor_root(root as int, x as int, 1),
{
    let mut low: u128 = 0;
    let mut high: u128 = 0x1_0000_0000_0000_0000;
    assert(0x1_0000_0000_0000_0000 * 0x1_0000_0000_0000_0000 > u128::MAX) by (nonlinear_arith);
    while high - low > 1
        invariant
            low < high <= 0x1_0000_0000_0000_0000,
            low * low <= x < high * high,
        decreases high - low,
    {
        let middle: u128 = low + (high - low) / 2;
        assert(middle * middle <= u128::MAX) by (nonlinear_arith)
            requires
                middle < 0x1_0000_0000_0000_0000,
        ;
        if middle * middle <= x {
            low = middle;
        } else {
            high = middle;
        }
    }
    assert(low * low * 1 == low * low && (low + 1) * (low + 1) * 1 == high * high)
        by (nonlinear_arith)
        requires
            high == low + 1,
    ;
    low as u64
}

impl DeviationResult {
    /// The numerator of the variance; zero where nothing is defined.
    pub open spec fn numerator(self) -> int {
        match self {
            DeviationResult::Defined { squares, .. } => squares as int,
            DeviationResult::Undefined => 0,
        }
    }

    /// The denominator of the variance; zero where nothing is defined.
    pub open spec fn denominator(self) -> int {
        match self {
            DeviationResult::Defined { count, tau, .. } => 2 * count * tau * tau,
            DeviationResult::Undefined => 0,
        }
    }

    /// There is a deviation: the result is defined, over at least one second
    /// difference and a positive interval.
    pub open spec fn has_value(self) -> bool {
        match self {
            DeviationResult::Defined { count, tau, .. } => count >= 1 && tau >= 1,
            DeviationResult::Undefined => false,
        }
    }

    pub fn is_defined(&self) -> (defined: bool)
        ensures
            defined == (*self != DeviationResult::Undefined),
    {
        match self {
            DeviationResult::Defined { .. } => true,
            DeviationResult::Undefined => false,
        }
    }

    /// The whole part of the deviation, in the unit of the samples: the largest
    /// whole number whose square does not exceed the variance. `None` where there
    /// is no deviation.
    pub fn floor(&self) -> (whole: Option<u64>)
        ensures
            whole.is_some() == self.has_value(),
            match whole {
                Some(root) => is_floor_root(root as int, self.numerator(), self.denominator()),
                None => true,
            },
    {
        match *self {
            DeviationResult::Undefined => None,
            DeviationResult::Defined { squares, count, tau } => {
                if count == 0 || tau == 0 {
                    return None;
                }
                let twice: u128 = 2 * (count as u128);
                let quotient: u128 = squares / twice / (tau as u128) / (tau as u128);
                let root: u64 = floor_root(quotient);
                proof {
                    let den = 2 * count * tau * tau;
                    assert(2 * count * tau > 0 && den > 0) by (nonlinear_arith)
                        requires
                            count >= 1,
                            tau >= 1,
                            den == 2 * count * tau * tau,
                    ;
                    lemma_div_denominator(squares as int, twice as int, tau as int);
                    lemma_div_denominator(squares as int, 2 * count * tau, tau as int);
                    assert(quotient == squares as int / den);
                    lemma_fundamental_div_mod(squares as int, den);
                    let r = root as int;
                    let q = quotient as int;
                    let rem = squares as int % den;
                    assert(r * r * den <= squares && squares < (r + 1) * (r + 1) * den)
                        by (nonlinear_arith)
                        requires
                            squares == den * q + rem,
                            0 <= rem < den,
                            r * r * 1 <= q,
                            q < (r + 1) * (r + 1) * 1,
                            r >= 0,
                    ;
                }
                Some(root)
            },
        }
    }
}

} // verus!
