//! Sampling: when a phase-error sample is due, and what it is.
//!
//! The schedule is laid out from one clock reading taken at the start: each deadline
//! is the one before plus the nominal interval, never a fresh reading plus the
//! interval, so that the drift of the counter against the clock stays visible in the
//! samples. The caller reads clock and counter and hands the readings in; the
//! sampler moves from waiting to due, from due to recorded and back to waiting.
use vstd::prelude::*;
use crate::calibrate::Frequency;
use crate::calibrate::Rate;

verus! {

/// Where the sampler stands in its cycle.
#[derive(Clone, Copy, Debug, PartialEq, Eq, Structural)]
pub enum Stage {
    /// The next deadline has not been reached.
    Waiting,
    /// The deadline has been reached; the counter is to be read.
    Due,
    /// The sample of this deadline has been handed out.
    Recorded,
}

/// Why the sampler did not do what was asked.
#[derive(Clone, Copy, Debug, PartialEq, Eq, Structural)]
pub enum SamplerError {
    /// The nominal interval is zero.
    NoInterval,
    /// The next deadline lies after the last instant that the clock can show.
    BeyondClock,
    /// A counter reading was handed in while no sample was due.
    NotDue,
    /// The schedule was to be advanced before the sample of this deadline was taken.
    NotRecorded,
    /// The counter reads less than at the start.
    CounterWentBack,
    /// The phase error does not fit 64 bits.
    OutOfRange,
}

/// What a sampler holds.
#[derive(Clone, Copy, Debug, PartialEq, Eq, Structural)]
pub struct Schedule {
    /// The calibrated rate of the counter.
    pub rate: Rate,
    /// The clock reading at the start, in nanoseconds.
    pub origin_time: u64,
    /// The counter reading at the start.
    pub origin_ticks: u64,
    /// The nominal interval between samples, in nanoseconds.
    pub interval: u64,
    /// The instant from which the next sample is due.
    pub deadline: u64,
    pub stage: Stage,
    /// The clock reading that last made a sample due.
    pub due_at: u64,
}

/// The phase error in nanoseconds: the instant that the counter predicts, which is
/// the start plus the time that the ticks counted since then take at the calibrated
/// rate, less the instant `at` that the clock showed.
pub open spec fn phase_error(
    rate: Rate,
    origin_time: u64,
    origin_ticks: u64,
    ticks: u64,
    at: u64,
) -> int {
    origin_time + ((ticks - origin_ticks) * rate.nanos) / (rate.ticks as int) - at
}

/// The sampler.
#[derive(Clone, Copy, Debug)]
pub struct Sampler {
    frequency: Frequency,
    origin_time: u64,
    origin_ticks: u64,
    interval: u64,
    deadline: u64,
    stage: Stage,
    due_at: u64,
}

impl View for Sampler {
    type V = Schedule;

    closed spec fn view(&self) -> Schedule {
        Schedule {
            rate: self.frequency@,
            origin_time: self.origin_time,
            origin_ticks: self.origin_ticks,
            interval: self.interval,
            deadline: self.deadline,
            stage: self.stage,
            due_at: self.due_at,
        }
    }
}

impl Sampler {
    /// A sampler that starts at the readings `now`, in nanoseconds, and `ticks`, and
    /// waits for its first deadline one `interval` later.
    pub fn start(frequency: Frequency, now: u64, ticks: u64, interval: u64) -> (started: Result<
        Sampler,
        SamplerError,
    >)
        ensures
            match started {
                Ok(sampler) => {
                    &&& interval > 0
                    &&& now + interval <= u64::MAX
                    &&& sampler@ == (Schedule {
                        rate: frequency@,
                        origin_time: now,
                        origin_ticks: ticks,
                        interval,
                        deadline: (now + interval) as u64,
                        stage: Stage::Waiting,
                        due_at: now,
                    })
                },
                Err(SamplerError::NoInterval) => interval == 0,
                Err(SamplerError::BeyondClock) => interval > 0 && now + interval > u64::MAX,
                Err(_) => false,
            },
    {
        if interval == 0 {
            return Err(SamplerError::NoInterval);
        }
        match now.checked_add(interval) {
            None => Err(SamplerError::BeyondClock),
            Some(deadline) => Ok(
                Sampler {
                    frequency,
                    origin_time: now,
                    origin_ticks: ticks,
                    interval,
                    deadline,
                    stage: Stage::Waiting,
                    due_at: now,
                },
            ),
        }
    }

    pub fn stage(&self) -> (stage: Stage)
        ensures
            stage == self@.stage,
    {
        self.stage
    }

    pub fn interval(&self) -> (interval: u64)
        ensures
            interval == self@.interval,
    {
        self.interval
    }

    pub fn deadline(&self) -> (deadline: u64)
        ensures
            deadline == self@.deadline,
    {
        self.deadline
    }

    /// Takes the clock reading `now`. A waiting sampler whose deadline has been
    /// reached becomes due and remembers the reading; nothing else changes anything.
    pub fn poll(&mut self, now: u64) -> (due: bool)
        ensures
            due == (old(self)@.stage == Stage::Waiting && now >= old(self)@.deadline),
            due ==> final(self)@ == (Schedule { stage: Stage::Due, due_at: now, ..old(self)@ }),
            !due ==> final(self)@ == old(self)@,
    {
        if self.stage == Stage::Waiting && now >= self.deadline {
            self.stage = Stage::Due;
            self.due_at = now;
            true
        } else {
            false
        }
    }

    /// Takes the counter reading `ticks` of a due sampler and gives the phase error in
    /// nanoseconds against the clock reading that made it due; as a fraction, that
    /// error is the sample over the nominal interval. Whether or not the error can be
    /// given, the deadline then counts as served.
    pub fn measure(&mut self, ticks: u64) -> (sample: Result<i64, SamplerError>)
        ensures
            match sample {
                Ok(error) => {
                    &&& old(self)@.stage == Stage::Due
                    &&& ticks >= old(self)@.origin_ticks
                    &&& error == phase_error(
                        old(self)@.rate,
                        old(self)@.origin_time,
                        old(self)@.origin_ticks,
                        ticks,
                        old(self)@.due_at,
                    )
                },
                Err(SamplerError::NotDue) => old(self)@.stage != Stage::Due,
                Err(SamplerError::CounterWentBack) => old(self)@.stage == Stage::Due && ticks < old(self)@.origin_ticks,
                Err(SamplerError::OutOfRange) => {
                    &&& old(self)@.stage == Stage::Due
                    &&& ticks >= old(self)@.origin_ticks
                    &&& !(i64::MIN <= phase_error(
                        old(self)@.rate,
                        old(self)@.origin_time,
                        old(self)@.origin_ticks,
                        ticks,
                        old(self)@.due_at,
                    ) <= i64::MAX)
                },
                Err(_) => false,
            },
            old(self)@.stage == Stage::Due ==> final(self)@ == (Schedule {
                stage: Stage::Recorded,
                ..old(self)@
            }),
            old(self)@.stage != Stage::Due ==> final(self)@ == old(self)@,
    {
        if self.stage != Stage::Due {
            return Err(SamplerError::NotDue);
        }
        self.stage = Stage::Recorded;
        if ticks < self.origin_ticks {
            return Err(SamplerError::CounterWentBack);
        }
        let span: u128 = self.frequency.span_of(ticks - self.origin_ticks);
        if span > 0x2_0000_0000_0000_0000 {
            return Err(SamplerError::OutOfRange);
        }
        let error: i128 = self.origin_time as i128 + span as i128 - self.due_at as i128;
        if error < i64::MIN as i128 || error > i64::MAX as i128 {
            return Err(SamplerError::OutOfRange);
        }
        Ok(error as i64)
    }

    /// Moves a sampler whose sample has been taken on to the next deadline, one
    /// nominal interval after the last.
    pub fn rearm(&mut self) -> (moved: Result<(), SamplerError>)
        ensures
            match moved {
                Ok(()) => {
                    &&& old(self)@.stage == Stage::Recorded
                    &&& old(self)@.deadline + old(self)@.interval <= u64::MAX
                    &&& final(self)@ == (Schedule {
                        stage: Stage::Waiting,
                        deadline: (old(self)@.deadline + old(self)@.interval) as u64,
                        ..old(self)@
                    })
                },
                Err(SamplerError::NotRecorded) => old(self)@.stage != Stage::Recorded && final(self)@ == old(self)@,
                Err(SamplerError::BeyondClock) => {
                    &&& old(self)@.stage == Stage::Recorded
                    &&& old(self)@.deadline + old(self)@.interval > u64::MAX
                    &&& final(self)@ == old(self)@
                },
                Err(_) => false,
            },
    {
        if self.stage != Stage::Recorded {
            return Err(SamplerError::NotRecorded);
        }
        match self.deadline.checked_add(self.interval) {
            None => Err(SamplerError::BeyondClock),
            Some(deadline) => {
                self.deadline = deadline;
                self.stage = Stage::Waiting;
                Ok(())
            },
        }
    }
}

} // verus!
