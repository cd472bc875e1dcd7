use timemark::calibrate::Frequency;
use timemark::engine::Engine;
use timemark::ladder::Style;
use timemark::sampler::Sampler;
use timemark::sampler::SamplerError;
use timemark::sampler::Stage;

const SECOND: u64 = 1_000_000_000;

fn three_gigahertz() -> Frequency {
    Frequency::new(3_000_000_000, SECOND).unwrap()
}

#[test]
fn one_cycle_from_waiting_to_waiting() {
    let mut sampler = Sampler::start(three_gigahertz(), 500, 9_000, SECOND).unwrap();
    assert_eq!(sampler.stage(), Stage::Waiting);
    assert_eq!(sampler.deadline(), SECOND + 500);
    assert_eq!(sampler.interval(), SECOND);

    assert!(!sampler.poll(SECOND + 499));
    assert_eq!(sampler.stage(), Stage::Waiting);

    assert!(sampler.poll(SECOND + 520));
    assert_eq!(sampler.stage(), Stage::Due);

    // The counter has run for a second and 50 ns; the clock showed a second and 20 ns.
    let sample = sampler.measure(9_000 + 3 * (SECOND + 50));
    assert_eq!(sample, Ok(30));
    assert_eq!(sampler.stage(), Stage::Recorded);

    assert_eq!(sampler.rearm(), Ok(()));
    assert_eq!(sampler.stage(), Stage::Waiting);
    assert_eq!(sampler.deadline(), 2 * SECOND + 500);
}

#[test]
fn a_counter_that_lags_gives_a_negative_error() {
    let mut sampler = Sampler::start(three_gigahertz(), 0, 0, SECOND).unwrap();
    assert!(sampler.poll(SECOND));
    assert_eq!(sampler.measure(3 * SECOND - 300), Ok(-100));
}

#[test]
fn the_predicted_instant_is_rounded_down_to_a_nanosecond() {
    let mut sampler = Sampler::start(three_gigahertz(), 0, 0, SECOND).unwrap();
    assert!(sampler.poll(SECOND));
    // 3 * 10^9 + 5 ticks are a second and one and two thirds of a nanosecond.
    assert_eq!(sampler.measure(3 * SECOND + 5), Ok(1));
}

#[test]
fn deadlines_are_laid_out_from_the_start_not_from_now() {
    let mut sampler = Sampler::start(three_gigahertz(), 1_000, 0, SECOND).unwrap();
    let mut late: u64 = 0;
    for k in 1..=20u64 {
        assert_eq!(sampler.deadline(), 1_000 + k * SECOND);
        late += 12_345;
        let t = 1_000 + k * SECOND + late;
        assert!(sampler.poll(t));
        assert!(sampler.measure(3 * (t - 1_000)).is_ok());
        assert_eq!(sampler.rearm(), Ok(()));
    }
    assert_eq!(sampler.deadline(), 1_000 + 21 * SECOND);
}

#[test]
fn drift_shows_in_the_samples() {
    // Calibrated at 3 GHz, the counter in fact runs one part in a million fast.
    let mut sampler = Sampler::start(three_gigahertz(), 0, 0, SECOND).unwrap();
    let mut samples: Vec<i64> = Vec::new();
    for k in 1..=10u64 {
        let t = k * SECOND;
        assert!(sampler.poll(t));
        samples.push(sampler.measure(3 * t + 3 * t / 1_000_000).unwrap());
        assert_eq!(sampler.rearm(), Ok(()));
    }
    let expected: Vec<i64> = (1..=10).map(|k| 1_000 * k).collect();
    assert_eq!(samples, expected);
}

#[test]
fn polling_changes_nothing_unless_waiting_and_due() {
    let mut sampler = Sampler::start(three_gigahertz(), 0, 0, SECOND).unwrap();
    assert!(sampler.poll(SECOND + 5));
    // Already due: a later reading does not replace the one that made it due.
    assert!(!sampler.poll(SECOND + 500));
    assert_eq!(sampler.stage(), Stage::Due);
    assert_eq!(sampler.measure(3 * (SECOND + 5)), Ok(0));
    assert!(!sampler.poll(5 * SECOND));
    assert_eq!(sampler.stage(), Stage::Recorded);
}

#[test]
fn a_counter_reading_out_of_turn_is_refused() {
    let mut sampler = Sampler::start(three_gigahertz(), 0, 0, SECOND).unwrap();
    assert_eq!(sampler.measure(5), Err(SamplerError::NotDue));
    assert_eq!(sampler.stage(), Stage::Waiting);
    assert!(sampler.poll(SECOND));
    assert!(sampler.measure(3 * SECOND).is_ok());
    assert_eq!(sampler.measure(3 * SECOND), Err(SamplerError::NotDue));
    assert_eq!(sampler.stage(), Stage::Recorded);
}

#[test]
fn the_schedule_moves_only_after_a_sample() {
    let mut sampler = Sampler::start(three_gigahertz(), 0, 0, SECOND).unwrap();
    assert_eq!(sampler.rearm(), Err(SamplerError::NotRecorded));
    assert!(sampler.poll(SECOND));
    assert_eq!(sampler.rearm(), Err(SamplerError::NotRecorded));
    assert_eq!(sampler.deadline(), SECOND);
    assert_eq!(sampler.stage(), Stage::Due);
}

#[test]
fn a_counter_behind_its_start_gives_no_sample_but_serves_the_deadline() {
    let mut sampler = Sampler::start(three_gigahertz(), 0, 1_000, SECOND).unwrap();
    assert!(sampler.poll(SECOND));
    assert_eq!(sampler.measure(999), Err(SamplerError::CounterWentBack));
    assert_eq!(sampler.stage(), Stage::Recorded);
    assert_eq!(sampler.rearm(), Ok(()));
}

#[test]
fn an_error_beyond_sixty_four_bits_gives_no_sample() {
    // One tick per 2^32 ns: 2^32 ticks predict 2^64 ns.
    let slow = Frequency::new(1, 1 << 32).unwrap();
    let mut sampler = Sampler::start(slow, 0, 0, SECOND).unwrap();
    assert!(sampler.poll(SECOND));
    assert_eq!(sampler.measure(1 << 32), Err(SamplerError::OutOfRange));
    assert_eq!(sampler.stage(), Stage::Recorded);

    let mut sampler = Sampler::start(slow, 0, 0, SECOND).unwrap();
    assert!(sampler.poll(u64::MAX));
    // 2^63 ns predicted against 2^64 - 1 shown: just below the least 64-bit value.
    assert_eq!(sampler.measure((1 << 31) - 1), Err(SamplerError::OutOfRange));

    let mut sampler = Sampler::start(slow, 0, 0, SECOND).unwrap();
    assert!(sampler.poll(u64::MAX));
    assert_eq!(sampler.measure(1 << 31), Ok(i64::MIN + 1));

    let mut sampler = Sampler::start(Frequency::new(1, u64::MAX).unwrap(), 0, 0, SECOND).unwrap();
    assert!(sampler.poll(SECOND));
    assert_eq!(sampler.measure(u64::MAX), Err(SamplerError::OutOfRange));
}

#[test]
fn a_zero_interval_is_refused() {
    assert_eq!(
        Sampler::start(three_gigahertz(), 0, 0, 0).err(),
        Some(SamplerError::NoInterval)
    );
}

#[test]
fn a_schedule_past_the_end_of_the_clock_is_refused() {
    assert_eq!(
        Sampler::start(three_gigahertz(), u64::MAX, 0, 1).err(),
        Some(SamplerError::BeyondClock)
    );
    let mut sampler = Sampler::start(three_gigahertz(), u64::MAX - SECOND - 5, 0, SECOND).unwrap();
    assert_eq!(sampler.deadline(), u64::MAX - 5);
    assert!(sampler.poll(u64::MAX - 5));
    assert!(sampler.measure(3 * SECOND).is_ok());
    assert_eq!(sampler.rearm(), Err(SamplerError::BeyondClock));
    assert_eq!(sampler.stage(), Stage::Recorded);
    assert_eq!(sampler.deadline(), u64::MAX - 5);
}

#[test]
fn samples_flow_from_the_sampler_into_the_engine() {
    let mut sampler = Sampler::start(three_gigahertz(), 0, 0, SECOND).unwrap();
    let mut engine = Engine::new(Style::DecadeDeci, 10).unwrap();
    for k in 1..=9u64 {
        let t = k * SECOND;
        assert!(sampler.poll(t));
        // The counter is alternately 3 ticks ahead and 3 ticks behind.
        let ticks = if k % 2 == 1 { 3 * t + 3 } else { 3 * t - 3 };
        let sample = sampler.measure(ticks).unwrap();
        assert_eq!(sample, if k % 2 == 1 { 1 } else { -1 });
        assert_eq!(engine.record(sample), Ok(()));
        assert_eq!(sampler.rearm(), Ok(()));
    }
    assert_eq!(engine.get(1).unwrap().floor(), Some(2));
}
