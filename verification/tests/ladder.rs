use timemark::engine::Engine;
use timemark::ladder::ladder;
use timemark::ladder::Style;

#[test]
fn decade_deci_up_to_a_hundred() {
    assert_eq!(
        ladder(Style::DecadeDeci, 100),
        vec![1, 2, 3, 4, 5, 6, 7, 8, 9, 10, 20, 30, 40, 50, 60, 70, 80, 90, 100]
    );
}

#[test]
fn decade_deci_stops_at_the_maximum() {
    assert_eq!(ladder(Style::DecadeDeci, 35), vec![1, 2, 3, 4, 5, 6, 7, 8, 9, 10, 20, 30]);
    assert_eq!(ladder(Style::DecadeDeci, 1), vec![1]);
    assert_eq!(ladder(Style::DecadeDeci, 0), Vec::<u32>::new());
}

#[test]
fn decade_deci_over_six_decades() {
    let rungs = ladder(Style::DecadeDeci, 1_000_000);
    let mut expected: Vec<u32> = Vec::new();
    for i in 0..6u32 {
        for j in 1..10u32 {
            expected.push(10u32.pow(i) * j);
        }
    }
    expected.push(1_000_000);
    assert_eq!(rungs, expected);
}

#[test]
fn decade_deci_to_the_end_of_the_range() {
    let rungs = ladder(Style::DecadeDeci, u32::MAX);
    assert_eq!(rungs.len(), 9 * 9 + 4);
    assert_eq!(rungs[rungs.len() - 1], 4_000_000_000);
    assert!(rungs.windows(2).all(|pair| pair[0] < pair[1]));
}

#[test]
fn decade_is_the_powers_of_ten() {
    assert_eq!(ladder(Style::Decade, 1000), vec![1, 10, 100, 1000]);
    assert_eq!(ladder(Style::Decade, 999), vec![1, 10, 100]);
    assert_eq!(
        ladder(Style::Decade, u32::MAX),
        vec![1, 10, 100, 1000, 10_000, 100_000, 1_000_000, 10_000_000, 100_000_000, 1_000_000_000]
    );
    assert_eq!(ladder(Style::Decade, 0), Vec::<u32>::new());
}

#[test]
fn all_tau_is_every_interval() {
    assert_eq!(ladder(Style::AllTau, 5), vec![1, 2, 3, 4, 5]);
    assert_eq!(ladder(Style::AllTau, 0), Vec::<u32>::new());
}

#[test]
fn single_tau_is_one_interval_within_the_maximum() {
    assert_eq!(ladder(Style::SingleTau(7), 10), vec![7]);
    assert_eq!(ladder(Style::SingleTau(10), 10), vec![10]);
    assert_eq!(ladder(Style::SingleTau(11), 10), Vec::<u32>::new());
    assert_eq!(ladder(Style::SingleTau(0), 10), Vec::<u32>::new());
}

#[test]
fn an_engine_serves_the_ladder_of_its_style() {
    let engine = Engine::new(Style::DecadeDeci, 250).unwrap();
    assert_eq!(engine.taus(), ladder(Style::DecadeDeci, 250));
    let engine = Engine::new(Style::Decade, 250).unwrap();
    assert_eq!(engine.taus(), vec![1, 10, 100]);
}

#[test]
fn no_engine_over_an_empty_ladder() {
    assert!(Engine::new(Style::DecadeDeci, 0).is_none());
    assert!(Engine::new(Style::Decade, 0).is_none());
    assert!(Engine::new(Style::AllTau, 0).is_none());
    assert!(Engine::new(Style::SingleTau(0), 5).is_none());
    assert!(Engine::new(Style::SingleTau(6), 5).is_none());
    assert!(Engine::new(Style::SingleTau(5), 5).is_some());
}
