use timemark::deviation::DeviationResult;
use timemark::engine::Engine;
use timemark::engine::Saturated;
use timemark::ladder::Style;

fn single(tau: u32) -> Engine {
    Engine::new(Style::SingleTau(tau), tau).unwrap()
}

fn feed(engine: &mut Engine, samples: &[i64]) {
    for &sample in samples {
        assert_eq!(engine.record(sample), Ok(()));
    }
}

/// A small generator of repeatable, scattered samples.
fn scattered(count: usize) -> Vec<i64> {
    let mut state: u64 = 0x2545_f491_4f6c_dd1d;
    let mut samples: Vec<i64> = Vec::new();
    for _ in 0..count {
        state = state.wrapping_mul(6364136223846793005).wrapping_add(1442695040888963407);
        samples.push(((state >> 40) as i64) - (1 << 23));
    }
    samples
}

#[test]
fn fresh_engine_has_no_samples_and_no_answers() {
    let engine = single(1);
    assert_eq!(engine.samples(), 0);
    assert_eq!(engine.get(1), Some(DeviationResult::Undefined));
}

#[test]
fn undefined_until_three_blocks_then_defined_for_good() {
    let mut engine = single(4);
    for n in 1..=11u64 {
        feed(&mut engine, &[n as i64 * 3]);
        assert_eq!(engine.samples(), n);
        assert_eq!(engine.get(4), Some(DeviationResult::Undefined));
    }
    for n in 12..=60u64 {
        feed(&mut engine, &[(n as i64) * (n as i64)]);
        let answer = engine.get(4).unwrap();
        assert!(answer.is_defined());
        assert_ne!(answer, DeviationResult::Undefined);
    }
}

#[test]
fn threshold_is_three_tau_on_every_rung() {
    let mut engine = Engine::new(Style::DecadeDeci, 20).unwrap();
    for n in 1..=70u64 {
        feed(&mut engine, &[(n % 7) as i64]);
        for tau in engine.taus() {
            let defined = engine.get(tau).unwrap().is_defined();
            assert_eq!(defined, n >= 3 * (tau as u64));
        }
    }
}

#[test]
fn alternating_samples_at_tau_one() {
    let mut engine = single(1);
    feed(&mut engine, &[1, -1, 1, -1, 1, -1, 1, -1, 1]);
    // Seven second differences of +4 or -4: 7 * 16 over 2 * 7 is a variance of 8.
    let answer = engine.get(1).unwrap();
    assert_eq!(answer, DeviationResult::Defined { squares: 112, count: 7, tau: 1 });
    match answer {
        DeviationResult::Defined { squares, count, tau } => {
            let variance = squares as f64 / (2.0 * count as f64 * (tau as f64) * (tau as f64));
            assert_eq!(variance, 8.0);
        }
        DeviationResult::Undefined => panic!("nine samples give seven differences"),
    }
    assert_eq!(answer.floor(), Some(2));
}

#[test]
fn block_averages_at_tau_two() {
    let mut engine = single(2);
    feed(&mut engine, &[1, 3, 5, 7, 2, 2, 0, 4]);
    // Block sums 4, 12, 4, 4; second differences -16 and 8; averages differ by -8 and 4.
    assert_eq!(engine.get(2), Some(DeviationResult::Defined { squares: 320, count: 2, tau: 2 }));
    // 80 over 2 * 2 in terms of averages: a variance of 20.
    assert_eq!(engine.get(2).unwrap().floor(), Some(4));
}

#[test]
fn a_block_in_progress_does_not_count() {
    let mut engine = single(3);
    feed(&mut engine, &[5, 5, 5, 1, 1, 1, 9, 9, 9]);
    // Block sums 15, 3, 27: one difference of 36.
    let nine = engine.get(3);
    assert_eq!(nine, Some(DeviationResult::Defined { squares: 36 * 36, count: 1, tau: 3 }));
    feed(&mut engine, &[100, -100]);
    assert_eq!(engine.get(3), nine);
    feed(&mut engine, &[0]);
    // Block sums 15, 3, 27, 0: differences 36 and -51.
    assert_eq!(
        engine.get(3),
        Some(DeviationResult::Defined { squares: 36 * 36 + 51 * 51, count: 2, tau: 3 })
    );
}

#[test]
fn constant_offset_changes_no_answer() {
    let samples = scattered(400);
    for offset in [1i64, -1, 1_000_000_007, -(1 << 40)] {
        let mut plain = Engine::new(Style::DecadeDeci, 100).unwrap();
        let mut moved = Engine::new(Style::DecadeDeci, 100).unwrap();
        for &sample in &samples {
            assert_eq!(plain.record(sample), Ok(()));
            assert_eq!(moved.record(sample + offset), Ok(()));
            for tau in plain.taus() {
                assert_eq!(plain.get(tau), moved.get(tau));
            }
        }
        assert!(plain.get(100).unwrap().is_defined());
    }
}

#[test]
fn zeros_give_a_zero_deviation() {
    let mut engine = Engine::new(Style::DecadeDeci, 10).unwrap();
    for n in 1..=40u64 {
        feed(&mut engine, &[0]);
        for tau in engine.taus() {
            if n >= 3 * tau as u64 {
                let count = n / tau as u64 - 2;
                assert_eq!(
                    engine.get(tau),
                    Some(DeviationResult::Defined { squares: 0, count, tau })
                );
                assert_eq!(engine.get(tau).unwrap().floor(), Some(0));
            } else {
                assert_eq!(engine.get(tau), Some(DeviationResult::Undefined));
            }
        }
    }
}

#[test]
fn a_constant_signal_gives_a_zero_deviation() {
    let mut engine = Engine::new(Style::AllTau, 5).unwrap();
    for _ in 0..15 {
        feed(&mut engine, &[-123_456_789]);
    }
    for tau in 1..=5u32 {
        assert_eq!(engine.get(tau).unwrap().floor(), Some(0));
    }
}

#[test]
fn an_interval_off_the_ladder_is_refused() {
    let mut engine = Engine::new(Style::DecadeDeci, 1000).unwrap();
    feed(&mut engine, &scattered(50));
    assert_eq!(engine.get(0), None);
    assert_eq!(engine.get(11), None);
    assert_eq!(engine.get(2000), None);
    assert!(engine.get(10).is_some());
}

#[test]
fn a_sample_that_does_not_fit_is_turned_away() {
    let mut engine = Engine::new(Style::AllTau, 2).unwrap();
    feed(&mut engine, &[i64::MAX, i64::MIN]);
    // The second difference would be near 2^65, its square beyond 128 bits.
    assert_eq!(engine.record(i64::MAX), Err(Saturated));
    assert_eq!(engine.samples(), 2);
    assert_eq!(engine.get(1), Some(DeviationResult::Undefined));
    // The engine is as it was: a sample that fits is taken.
    assert_eq!(engine.record(i64::MIN), Ok(()));
    assert_eq!(engine.samples(), 3);
    // The least value less twice itself plus the greatest: 2^64 - 1.
    let d: u128 = u64::MAX as u128;
    assert_eq!(engine.get(1), Some(DeviationResult::Defined { squares: d * d, count: 1, tau: 1 }));
}

#[test]
fn the_ladder_stays_as_configured_however_long_the_history() {
    let mut engine = Engine::new(Style::DecadeDeci, 1_000_000).unwrap();
    let rungs = engine.taus();
    assert_eq!(rungs.len(), 55);
    for (n, sample) in scattered(20_000).into_iter().enumerate() {
        assert_eq!(engine.record(sample), Ok(()));
        assert_eq!(engine.samples(), n as u64 + 1);
    }
    assert_eq!(engine.taus(), rungs);
    assert!(engine.get(6000).unwrap().is_defined());
    assert_eq!(engine.get(7000), Some(DeviationResult::Undefined));
}

#[test]
fn answers_depend_on_the_samples_only() {
    // Two engines with different ladders agree wherever both serve an interval.
    let samples = scattered(300);
    let mut every = Engine::new(Style::AllTau, 100).unwrap();
    let mut deci = Engine::new(Style::DecadeDeci, 100).unwrap();
    let mut one = Engine::new(Style::SingleTau(30), 100).unwrap();
    feed(&mut every, &samples);
    feed(&mut deci, &samples);
    feed(&mut one, &samples);
    for tau in deci.taus() {
        assert_eq!(deci.get(tau), every.get(tau));
    }
    assert_eq!(one.get(30), every.get(30));
}

#[test]
fn agrees_with_the_allan_crate_at_tau_one() {
    let samples = scattered(200);
    let mut engine = single(1);
    let mut other = allan::Allan::builder().style(allan::Style::SingleTau(1)).max_tau(1).build_allan();
    for &sample in &samples {
        assert_eq!(engine.record(sample), Ok(()));
        other.record(sample as f64);
    }
    match engine.get(1).unwrap() {
        DeviationResult::Defined { squares, count, tau } => {
            let variance = squares as f64 / (2.0 * count as f64 * (tau as f64) * (tau as f64));
            let theirs = other.get(1).unwrap().variance().unwrap();
            assert!((variance - theirs).abs() <= 1e-9 * theirs);
            let deviation = other.get(1).unwrap().deviation().unwrap();
            assert!((variance.sqrt() - deviation).abs() <= 1e-9 * deviation);
        }
        DeviationResult::Undefined => panic!("two hundred samples define tau one"),
    }
}

#[test]
fn a_snapshot_lists_the_answer_on_every_rung() {
    let mut engine = Engine::new(Style::DecadeDeci, 30).unwrap();
    feed(&mut engine, &scattered(45));
    let snapshot = engine.snapshot();
    let rungs: Vec<u32> = snapshot.iter().map(|entry| entry.0).collect();
    assert_eq!(rungs, engine.taus());
    for (tau, answer) in snapshot {
        assert_eq!(Some(answer), engine.get(tau));
        assert_eq!(answer.is_defined(), 45 >= 3 * tau);
    }
}
