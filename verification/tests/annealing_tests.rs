use annealing::annealing::{ConfigurationError, Schedule};
use annealing::metropolis::sample;
use annealing::random::FixedSource;
use annealing::salesman::{tour_cost, City, Itinerary};
use annealing::UNIT;

fn script() -> Vec<u64> {
    vec![12, 7, 400, 3, 91, 2048, 5, 66, 1023, 8, 301, 17]
}

fn source() -> FixedSource {
    FixedSource::new(script()).unwrap()
}

fn schedule(start: u64, step: u64, min: u64, cities: usize) -> Schedule {
    let mut src = source();
    Schedule::new(start, step, min, cities, &mut src).unwrap()
}

fn square_itinerary() -> Itinerary {
    let cities = vec![
        City { id: 0, x: UNIT, y: UNIT },
        City { id: 1, x: 2 * UNIT, y: UNIT },
        City { id: 2, x: 2 * UNIT, y: 2 * UNIT },
        City { id: 3, x: UNIT, y: 2 * UNIT },
    ];
    Itinerary::from_cities(cities).unwrap()
}

fn point_itinerary() -> Itinerary {
    let cities = vec![
        City { id: 0, x: UNIT, y: UNIT },
        City { id: 1, x: UNIT, y: UNIT },
        City { id: 2, x: UNIT, y: UNIT },
        City { id: 3, x: UNIT, y: UNIT },
    ];
    Itinerary::from_cities(cities).unwrap()
}

#[test]
fn zero_temperature_step_is_rejected() {
    let mut src = source();
    let r = Schedule::new(100, 0, 1, 4, &mut src);
    assert_eq!(r.err(), Some(ConfigurationError::NonPositiveTemperatureStep));
}

#[test]
fn start_at_or_below_minimum_is_rejected() {
    let mut src = source();
    let r = Schedule::new(5, 1, 5, 4, &mut src);
    assert_eq!(r.err(), Some(ConfigurationError::StartNotAboveMinimum));
}

#[test]
fn single_city_is_rejected() {
    let mut src = source();
    let r = Schedule::new(100, 10, 1, 1, &mut src);
    assert_eq!(r.err(), Some(ConfigurationError::TooFewCities));
}

#[test]
fn zero_sample_size_is_rejected_before_sampling() {
    let mut sched = schedule(100, 10, 1, 4);
    let mut src = source();
    let r = sched.run(0, &mut src);
    assert_eq!(r.err(), Some(ConfigurationError::ZeroSampleSize));
    assert_eq!(sched.current_temperature(), 100);
}

#[test]
fn chain_has_exactly_n_entries() {
    let sched = schedule(100, 10, 1, 3);
    for n in [1usize, 2, 5, 9] {
        let mut src = source();
        let chain = sample(&sched, n, &mut src);
        assert_eq!(chain.len(), n);
    }
}

#[test]
fn chain_weights_come_from_the_pdf() {
    let sched = schedule(100, 10, 1, 3);
    let mut src = source();
    let chain = sample(&sched, 6, &mut src);
    for (state, weight) in &chain {
        assert_eq!(weight.cost, state.total_cost());
        assert_eq!(weight.temperature, sched.current_temperature());
    }
}

#[test]
fn cheaper_proposal_is_always_accepted() {
    let sched = schedule(100, 10, 1, 4);
    let current = square_itinerary();
    let cheaper = point_itinerary();
    // an even draw would reject a worsening move, but cheaper short-circuits
    let mut src = FixedSource::new(vec![2]).unwrap();
    assert!(sched.accept_decision(Some(&current), &cheaper, &mut src));
}

#[test]
fn equal_cost_proposal_is_always_accepted() {
    let sched = schedule(100, 10, 1, 4);
    let current = square_itinerary();
    let same = current.duplicate();
    let mut src = FixedSource::new(vec![2]).unwrap();
    assert!(sched.accept_decision(Some(&current), &same, &mut src));
}

#[test]
fn seed_is_always_accepted() {
    let sched = schedule(100, 10, 1, 4);
    let proposed = square_itinerary();
    let mut src = FixedSource::new(vec![2]).unwrap();
    assert!(sched.accept_decision(None, &proposed, &mut src));
}

#[test]
fn worsening_proposal_follows_the_draw() {
    let sched = schedule(100, 10, 1, 4);
    let current = point_itinerary();
    let worse = square_itinerary();
    let mut odd = FixedSource::new(vec![3]).unwrap();
    assert!(sched.accept_decision(Some(&current), &worse, &mut odd));
    let mut even = FixedSource::new(vec![2]).unwrap();
    assert!(!sched.accept_decision(Some(&current), &worse, &mut even));
}

#[test]
fn run_performs_ceil_many_levels() {
    // (start, step, min, expected levels)
    let cases: [(u64, u64, u64, usize); 4] =
        [(100, 10, 1, 10), (10, 2, 0, 5), (10, 3, 0, 4), (11, 10, 1, 1)];
    for (start, step, min, expected) in cases {
        let mut sched = schedule(start, step, min, 4);
        let mut src = source();
        let (_, records) = sched.run(3, &mut src).unwrap();
        assert_eq!(records.len(), expected);
        assert!(sched.current_temperature() <= min);
    }
}

#[test]
fn cheaper_acceptance_consumes_no_draw() {
    let sched = schedule(100, 10, 1, 4);
    let current = square_itinerary();
    let cheaper = point_itinerary();
    let mut src = FixedSource::new(vec![2, 3]).unwrap();
    assert!(sched.accept_decision(Some(&current), &cheaper, &mut src));
    // the even scripted draw is still pending, so a worsening move now fails
    assert!(!sched.accept_decision(Some(&cheaper), &current, &mut src));
}

#[test]
fn run_records_each_temperature_level() {
    let mut sched = schedule(100, 10, 1, 4);
    let mut src = source();
    let (it, records) = sched.run(5, &mut src).unwrap();
    assert_eq!(records.len(), 10);
    assert_eq!(sched.current_temperature(), 0);
    for (k, rec) in records.iter().enumerate() {
        assert_eq!(rec.temperature, 100 - 10 * k as u64);
        assert!(rec.temperature > 1);
    }
    assert_eq!(records.last().unwrap().cost, it.total_cost());
}

#[test]
fn run_keeps_the_city_set() {
    let mut sched = schedule(100, 10, 1, 4);
    let mut src = source();
    let (it, _) = sched.run(5, &mut src).unwrap();
    let mut ids: Vec<usize> = it.cities().iter().map(|c| c.id).collect();
    ids.sort();
    assert_eq!(ids, vec![0, 1, 2, 3]);
    assert_eq!(it.total_cost(), tour_cost(it.cities()));
}

#[test]
fn two_cities_are_enough_to_run() {
    let mut sched = schedule(10, 2, 0, 2);
    let mut src = source();
    let (it, records) = sched.run(2, &mut src).unwrap();
    assert_eq!(records.len(), 5);
    assert_eq!(it.len(), 2);
    let mut ids: Vec<usize> = it.cities().iter().map(|c| c.id).collect();
    ids.sort();
    assert_eq!(ids, vec![0, 1]);
}

#[test]
fn identical_scripts_give_identical_runs() {
    let run_once = || {
        let mut src = source();
        let mut sched = Schedule::new(100, 10, 1, 4, &mut src).unwrap();
        sched.run(5, &mut src).unwrap()
    };
    let (it_a, rec_a) = run_once();
    let (it_b, rec_b) = run_once();
    assert_eq!(it_a.total_cost(), it_b.total_cost());
    assert_eq!(rec_a, rec_b);
    let coords_a: Vec<(usize, u64, u64)> = it_a.cities().iter().map(|c| (c.id, c.x, c.y)).collect();
    let coords_b: Vec<(usize, u64, u64)> = it_b.cities().iter().map(|c| (c.id, c.x, c.y)).collect();
    assert_eq!(coords_a, coords_b);
}
