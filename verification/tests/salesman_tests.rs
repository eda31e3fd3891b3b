use annealing::random::{FixedSource, RandomSource};
use annealing::salesman::{manhattan, tour_cost, City, Itinerary};
use annealing::{COORD_LIMIT, UNIT};

fn city(id: usize, x: u64, y: u64) -> City {
    City { id, x, y }
}

/// The unit square, scaled to fixed point; closed-tour cost 4 * UNIT.
fn square() -> Vec<City> {
    vec![
        city(0, UNIT, UNIT),
        city(1, 2 * UNIT, UNIT),
        city(2, 2 * UNIT, 2 * UNIT),
        city(3, UNIT, 2 * UNIT),
    ]
}

fn ids_sorted(it: &Itinerary) -> Vec<usize> {
    let mut ids: Vec<usize> = it.cities().iter().map(|c| c.id).collect();
    ids.sort();
    ids
}

#[test]
fn manhattan_is_symmetric() {
    let a = city(0, 10, 200);
    let b = city(1, 35, 60);
    assert_eq!(manhattan(&a, &b), manhattan(&b, &a));
    assert_eq!(manhattan(&a, &b), 25 + 140);
}

#[test]
fn manhattan_of_city_with_itself_is_zero() {
    let a = city(7, 12345, 678);
    assert_eq!(manhattan(&a, &a), 0);
}

#[test]
fn tour_cost_of_square_is_exact() {
    let cities = square();
    assert_eq!(tour_cost(&cities), 4 * UNIT);
}

#[test]
fn tour_cost_of_two_cities_counts_both_directions() {
    let cities = vec![city(0, UNIT, UNIT), city(1, 3 * UNIT, UNIT)];
    assert_eq!(tour_cost(&cities), 4 * UNIT);
}

#[test]
fn from_cities_rejects_single_city() {
    let cities = vec![city(0, UNIT, UNIT)];
    assert!(Itinerary::from_cities(cities).is_none());
}

#[test]
fn from_cities_rejects_out_of_bounds_coordinate() {
    let cities = vec![city(0, UNIT, UNIT), city(1, COORD_LIMIT + 1, UNIT)];
    assert!(Itinerary::from_cities(cities).is_none());
}

#[test]
fn from_cities_caches_recomputed_cost() {
    let it = Itinerary::from_cities(square()).unwrap();
    assert_eq!(it.total_cost(), 4 * UNIT);
    assert_eq!(it.total_cost(), tour_cost(it.cities()));
    assert_eq!(it.len(), 4);
}

#[test]
fn average_step_length_divides_cost_by_length() {
    let it = Itinerary::from_cities(square()).unwrap();
    assert_eq!(it.average_step_length(), UNIT);
}

#[test]
fn reversed_between_reverses_exactly_the_segment() {
    let cities: Vec<City> = (0..5).map(|k| city(k, UNIT + k as u64 * UNIT, UNIT)).collect();
    let it = Itinerary::from_cities(cities).unwrap();
    let rev = it.reversed_between(1, 3);
    let order: Vec<usize> = rev.cities().iter().map(|c| c.id).collect();
    assert_eq!(order, vec![0, 3, 2, 1, 4]);
    assert_eq!(rev.total_cost(), tour_cost(rev.cities()));
    // the original is untouched
    let untouched: Vec<usize> = it.cities().iter().map(|c| c.id).collect();
    assert_eq!(untouched, vec![0, 1, 2, 3, 4]);
}

#[test]
fn reversing_the_whole_tour_keeps_the_cost() {
    let cities: Vec<City> = (0..5).map(|k| city(k, UNIT + k as u64 * 97, UNIT + k as u64 * 13)).collect();
    let it = Itinerary::from_cities(cities).unwrap();
    let rev = it.reversed_between(0, 4);
    let order: Vec<usize> = rev.cities().iter().map(|c| c.id).collect();
    assert_eq!(order, vec![4, 3, 2, 1, 0]);
    // a closed tour walked backwards costs the same
    assert_eq!(rev.total_cost(), it.total_cost());
}

#[test]
fn generate_new_uses_the_drawn_indices() {
    let cities: Vec<City> = (0..5).map(|k| city(k, UNIT + k as u64 * UNIT, UNIT)).collect();
    let it = Itinerary::from_cities(cities).unwrap();
    // first index: 1 % 5 == 1; offset: 2 % 4 == 2 >= 1, so second index is 3.
    let mut src = FixedSource::new(vec![1, 2]).unwrap();
    let moved = it.generate_new(&mut src);
    let order: Vec<usize> = moved.cities().iter().map(|c| c.id).collect();
    assert_eq!(order, vec![0, 3, 2, 1, 4]);
}

#[test]
fn generate_new_returns_a_permutation() {
    let cities: Vec<City> = (0..6).map(|k| city(k, UNIT + k as u64 * 37, UNIT + k as u64 * 11)).collect();
    let it = Itinerary::from_cities(cities).unwrap();
    let mut src = FixedSource::new(vec![5, 1, 4, 2, 9, 3]).unwrap();
    let mut current = it.duplicate();
    for _ in 0..4 {
        let next = current.generate_new(&mut src);
        assert_eq!(next.len(), it.len());
        assert_eq!(ids_sorted(&next), vec![0, 1, 2, 3, 4, 5]);
        assert_eq!(next.total_cost(), tour_cost(next.cities()));
        current = next;
    }
}

#[test]
fn random_itinerary_stays_in_the_square() {
    let mut src = FixedSource::new(vec![3, 1500, 7, 2900, 11, 0, 4096, 512]).unwrap();
    let it = Itinerary::new(4, &mut src);
    assert_eq!(it.len(), 4);
    // side of the square: sqrt(4) == 2 in whole units
    for (k, c) in it.cities().iter().enumerate() {
        assert_eq!(c.id, k);
        assert!(UNIT <= c.x && c.x <= 2 * UNIT);
        assert!(UNIT <= c.y && c.y <= 2 * UNIT);
    }
    assert_eq!(it.total_cost(), tour_cost(it.cities()));
}

#[test]
fn fixed_source_draws_cycle() {
    let mut src = FixedSource::new(vec![5, 6]).unwrap();
    assert_eq!(src.index_below(4), 1); // 5 % 4
    assert_eq!(src.index_below(4), 2); // 6 % 4
    assert_eq!(src.index_below(4), 1); // wrapped around
    assert_eq!(src.coordinate_in(10, 12), 10 + 6 % 3);
}

#[test]
fn fixed_source_boltzmann_parity() {
    let mut src = FixedSource::new(vec![3, 2, 8]).unwrap();
    assert!(src.boltzmann_accepts(5, 10)); // odd draw accepts
    assert!(!src.boltzmann_accepts(5, 10)); // even draw rejects
    assert!(src.boltzmann_accepts(0, 10)); // zero delta always accepts
}

#[test]
fn fixed_source_rejects_empty_script() {
    assert!(FixedSource::new(Vec::new()).is_none());
}
