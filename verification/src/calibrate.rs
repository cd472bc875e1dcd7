//! Calibration: how many counter ticks pass per unit of reference time.
//!
//! The caller reads counter and clock; the calibrator decides. It is begun with one
//! reading of both, asked after every further clock reading whether the duration is
//! over, and finished with a second reading of both.
use vstd::prelude::*;
use crate::counter::ONE_SECOND;

verus! {

/// Why a calibration gave no frequency.
#[derive(Clone, Copy, Debug, PartialEq, Eq, Structural)]
pub enum CalibrationError {
    /// The duration is zero.
    NoDuration,
    /// The duration ends after the last instant that the clock can show.
    BeyondClock,
    /// The duration is not over yet.
    Early,
    /// The counter did not advance over the duration.
    CounterStalled,
}

/// A counter's rate: `ticks` ticks in `nanos` nanoseconds, both positive.
#[derive(Clone, Copy, Debug, PartialEq, Eq, Structural)]
pub struct Rate {
    pub ticks: u64,
    pub nanos: u64,
}

/// A frequency estimate, kept as the two differences that it is the ratio of.
#[derive(Clone, Copy, Debug)]
pub struct Frequency {
    ticks: u64,
    nanos: u64,
}

impl View for Frequency {
    type V = Rate;

    closed spec fn view(&self) -> Rate {
        Rate { ticks: self.ticks, nanos: self.nanos }
    }
}

impl Frequency {
    #[verifier::type_invariant]
    spec fn positive(self) -> bool {
        self.ticks > 0 && self.nanos > 0
    }

    /// The frequency of `ticks` ticks in `nanos` nanoseconds; `None` where either is zero.
    pub fn new(ticks: u64, nanos: u64) -> (made: Option<Frequency>)
        ensures
            made.is_some() == (ticks > 0 && nanos > 0),
            match made {
                Some(frequency) => frequency@ == (Rate { ticks, nanos }),
                None => true,
            },
    {
        if ticks > 0 && nanos > 0 {
            Some(Frequency { ticks, nanos })
        } else {
            None
        }
    }

    pub fn ticks(&self) -> (ticks: u64)
        ensures
            ticks == self@.ticks,
            ticks > 0,
    {
        proof {
            use_type_invariant(self);
        }
        self.ticks
    }

    pub fn nanos(&self) -> (nanos: u64)
        ensures
            nanos == self@.nanos,
            nanos > 0,
    {
        proof {
            use_type_invariant(self);
        }
        self.nanos
    }

    /// Whole ticks per second.
    pub fn per_second(&self) -> (rate: u128)
        ensures
            rate == (self@.ticks * 1_000_000_000) / (self@.nanos as int),
    {
        proof {
            use_type_invariant(self);
        }
        (self.ticks as u128) * 1_000_000_000 / (self.nanos as u128)
    }

    /// Whole nanoseconds that `ticks` ticks take at this frequency.
    pub fn span_of(&self, ticks: u64) -> (nanos: u128)
        ensures
            nanos == (ticks * self@.nanos) / (self@.ticks as int),
    {
        proof {
            use_type_invariant(self);
            assert(ticks * self.nanos <= u128::MAX) by (nonlinear_arith)
                requires
                    ticks <= u64::MAX,
                    self.nanos <= u64::MAX,
            ;
        }
        (ticks as u128) * (self.nanos as u128) / (self.ticks as u128)
    }
}

/// What a calibrator holds: the first reading of clock and counter, and the instant
/// from which the second may be taken.
#[derive(Clone, Copy, Debug, PartialEq, Eq, Structural)]
pub struct Window {
    pub started_at: u64,
    pub started_ticks: u64,
    pub deadline: u64,
}

/// A calibration under way.
#[derive(Clone, Copy, Debug)]
pub struct Calibrator {
    started_at: u64,
    started_ticks: u64,
    deadline: u64,
}

impl View for Calibrator {
    type V = Window;

    closed spec fn view(&self) -> Window {
        Window {
            started_at: self.started_at,
            started_ticks: self.started_ticks,
            deadline: self.deadline,
        }
    }
}

impl Calibrator {
    #[verifier::type_invariant]
    spec fn ends_later(self) -> bool {
        self.started_at < self.deadline
    }

    /// Begins a calibration over `seconds` whole seconds at the readings `now`, in
    /// nanoseconds, and `ticks`.
    pub fn begin(now: u64, ticks: u64, seconds: u64) -> (begun: Result<Calibrator, CalibrationError>)
        ensures
            match begun {
                Ok(calibrator) => {
                    &&& seconds > 0
                    &&& now + seconds * 1_000_000_000 <= u64::MAX
                    &&& calibrator@ == (Window {
                        started_at: now,
                        started_ticks: ticks,
                        deadline: (now + seconds * 1_000_000_000) as u64,
                    })
                },
                Err(CalibrationError::NoDuration) => seconds == 0,
                Err(CalibrationError::BeyondClock) => seconds > 0 && now + seconds * 1_000_000_000
                    > u64::MAX,
                Err(_) => false,
            },
    {
        if seconds == 0 {
            return Err(CalibrationError::NoDuration);
        }
        let span: u64 = match seconds.checked_mul(ONE_SECOND) {
            Some(span) => span,
            None => {
                return Err(CalibrationError::BeyondClock);
            },
        };
        match now.checked_add(span) {
            Some(deadline) => Ok(Calibrator { started_at: now, started_ticks: ticks, deadline }),
            None => Err(CalibrationError::BeyondClock),
        }
    }

    /// The duration is over at the clock reading `now`.
    pub fn is_over(&self, now: u64) -> (over: bool)
        ensures
            over == (now >= self@.deadline),
    {
        now >= self.deadline
    }

    /// The frequency that the second reading `now`, `ticks` gives: the ticks counted
    /// since the first reading over the nanoseconds passed since then.
    pub fn finish(&self, now: u64, ticks: u64) -> (done: Result<Frequency, CalibrationError>)
        ensures
            match done {
                Ok(frequency) => {
                    &&& now >= self@.deadline
                    &&& ticks > self@.started_ticks
                    &&& frequency@ == (Rate {
                        ticks: (ticks - self@.started_ticks) as u64,
                        nanos: (now - self@.started_at) as u64,
                    })
                },
                Err(CalibrationError::Early) => now < self@.deadline,
                Err(CalibrationError::CounterStalled) => now >= self@.deadline && ticks
                    <= self@.started_ticks,
                Err(_) => false,
            },
    {
        proof {
            use_type_invariant(self);
        }
        if now < self.deadline {
            return Err(CalibrationError::Early);
        }
        if ticks <= self.started_ticks {
            return Err(CalibrationError::CounterStalled);
        }
        Ok(Frequency { ticks: ticks - self.started_ticks, nanos: now - self.started_at })
    }
}

} // verus!
