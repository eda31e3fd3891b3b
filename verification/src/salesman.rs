//! The tour data model: cities, itineraries, the Manhattan cost function and
//! the 2-opt move operator.

use vstd::prelude::*;

verus! {

use vstd::pervasive::VecAdditionalExecFns;
use vstd::seq_lib::lemma_multiset_commutative;
use crate::{COORD_LIMIT, MAX_CITIES, UNIT};
use crate::random::RandomSource;

/// A city: an identifier plus two fixed-point coordinates.
#[derive(Clone, Copy, Debug, PartialEq, Eq, Structural)]
pub struct City {
    pub id: usize,
    pub x: u64,
    pub y: u64,
}

pub open spec fn abs_diff(a: int, b: int) -> int {
    if a >= b {
        a - b
    } else {
        b - a
    }
}

/// Manhattan distance between two cities: the sum of the absolute coordinate
/// differences.
pub open spec fn spec_manhattan(a: City, b: City) -> int {
    abs_diff(a.x as int, b.x as int) + abs_diff(a.y as int, b.y as int)
}

pub open spec fn city_in_bounds(c: City) -> bool {
    c.x <= COORD_LIMIT && c.y <= COORD_LIMIT
}

pub open spec fn cities_in_bounds(s: Seq<City>) -> bool {
    forall|k: int| 0 <= k < s.len() ==> city_in_bounds(#[trigger] s[k])
}

/// Cost of the open path through `s`: the sum of the Manhattan distances
/// between every consecutive pair.
pub open spec fn spec_path_cost(s: Seq<City>) -> int
    decreases s.len(),
{
    if s.len() <= 1 {
        0
    } else {
        spec_path_cost(s.drop_last()) + spec_manhattan(s[s.len() - 2], s[s.len() - 1])
    }
}

/// Cost of the closed tour through `s`: the open path cost plus the wraparound
/// edge from the last city back to the first.
pub open spec fn spec_tour_cost(s: Seq<City>) -> int
    recommends
        s.len() >= 1,
{
    spec_manhattan(s[0], s[s.len() - 1]) + spec_path_cost(s)
}

/// The Manhattan distance is symmetric and vanishes between a city and itself.
pub proof fn lemma_manhattan_symmetry(a: City, b: City)
    ensures
        spec_manhattan(a, b) == spec_manhattan(b, a),
        spec_manhattan(a, a) == 0,
{
}

/// Manhattan distance, exactly `spec_manhattan`.
pub fn manhattan(a: &City, b: &City) -> (r: u64)
    requires
        city_in_bounds(*a),
        city_in_bounds(*b),
    ensures
        r == spec_manhattan(*a, *b),
{
    let dx = if a.x > b.x {
        a.x - b.x
    } else {
        b.x - a.x
    };
    let dy = if a.y > b.y {
        a.y - b.y
    } else {
        b.y - a.y
    };
    dx + dy
}

proof fn lemma_path_cost_take_step(s: Seq<City>, i: int)
    requires
        1 <= i < s.len(),
    ensures
        spec_path_cost(s.take(i + 1)) == spec_path_cost(s.take(i)) + spec_manhattan(
            s[i - 1],
            s[i],
        ),
{
    let t = s.take(i + 1);
    assert(t.drop_last() =~= s.take(i));
}

/// A tour: an ordered sequence of cities together with the cached cost of
/// visiting them in this order and returning to the start.
pub struct Itinerary {
    cities: Vec<City>,
    total: u64,
}

impl View for Itinerary {
    type V = Seq<City>;

    closed spec fn view(&self) -> Seq<City> {
        self.cities@
    }
}

impl Itinerary {
    /// The cached total cost.
    pub closed spec fn spec_total(&self) -> u64 {
        self.total
    }

    /// Well-formedness: a closed tour over at least two bounded cities whose
    /// cached cost equals the cost recomputed from the sequence. Every public
    /// operation keeps this, so a stale cache is never observable.
    pub open spec fn wf(&self) -> bool {
        &&& 2 <= self@.len() <= MAX_CITIES
        &&& cities_in_bounds(self@)
        &&& self.spec_total() == spec_tour_cost(self@)
    }

    /// The cached cost of a well-formed itinerary is the cost recomputed from
    /// scratch over its current sequence.
    pub proof fn lemma_cost_cached(&self)
        requires
            self.wf(),
        ensures
            self.spec_total() == spec_tour_cost(self@),
    {
    }

    /// The cached total cost of the tour.
    pub fn total_cost(&self) -> (r: u64)
        ensures
            r == self.spec_total(),
    {
        self.total
    }

    /// How many cities the tour visits.
    pub fn len(&self) -> (r: usize)
        ensures
            r == self@.len(),
    {
        self.cities.len()
    }

    /// The cities in visiting order.
    pub fn cities(&self) -> (r: &Vec<City>)
        ensures
            r@ == self@,
    {
        &self.cities
    }

    /// An itinerary over the given cities, or `None` when they cannot form a
    /// well-formed tour (fewer than two cities, too many, or a coordinate out
    /// of bounds).
    pub fn from_cities(cities: Vec<City>) -> (r: Option<Itinerary>)
        ensures
            match r {
                Some(it) => it@ == cities@ && it.wf(),
                None => !(2 <= cities@.len() <= MAX_CITIES && cities_in_bounds(cities@)),
            },
    {
        if cities.len() < 2 || cities.len() > MAX_CITIES {
            return None;
        }
        let mut k: usize = 0;
        while k < cities.len()
            invariant
                k <= cities@.len(),
                forall|j: int| 0 <= j < k ==> city_in_bounds(#[trigger] cities@[j]),
            decreases cities@.len() - k,
        {
            if cities[k].x > COORD_LIMIT || cities[k].y > COORD_LIMIT {
                return None;
            }
            k += 1;
        }
        let total = tour_cost(&cities);
        Some(Itinerary { cities, total })
    }

    /// A fresh random tour over `num_cities` cities, visited in generation
    /// order. City `k` gets id `k` and coordinates drawn uniformly from
    /// `[1, sqrt(num_cities)]` — in fixed point, from `[UNIT, side]` where
    /// `side` is the integer square root of `num_cities * UNIT * UNIT`.
    pub fn new<R: RandomSource>(num_cities: usize, rng: &mut R) -> (r: Itinerary)
        requires
            2 <= num_cities <= MAX_CITIES,
        ensures
            r.wf(),
            fresh_city_placement(r@, num_cities as int),
    {
        proof {
            assert((num_cities as int) * ((UNIT as int) * (UNIT as int)) < 0x4000_0000_0000_0000
                && (num_cities as int) * ((UNIT as int) * (UNIT as int)) >= 2 * ((UNIT as int) * (
            UNIT as int)) && (num_cities as int) * ((UNIT as int) * (UNIT as int)) == (
            num_cities as int) * (UNIT as int) * (UNIT as int)) by (nonlinear_arith)
                requires
                    2 <= (num_cities as int) <= 0x7FFF_FFFF,
                    (UNIT as int) == 1024,
            ;
        }
        let area = (num_cities as u64) * (UNIT * UNIT);
        let side = isqrt(area);
        proof {
            assert(UNIT <= side && side <= COORD_LIMIT) by (nonlinear_arith)
                requires
                    is_square_side(side as int, area as int),
                    2 * (UNIT as int) * (UNIT as int) <= (area as int),
                    (area as int) < 0x4000_0000_0000_0000,
                    (UNIT as int) == 1024,
                    (COORD_LIMIT as int) == 0x7FFF_FFFF,
            ;
        }
        let mut cities: Vec<City> = Vec::new();
        let mut k: usize = 0;
        while k < num_cities
            invariant
                k <= num_cities,
                cities@.len() == k,
                UNIT <= side <= COORD_LIMIT,
                forall|j: int| 0 <= j < k ==> (#[trigger] cities@[j]).id == j,
                forall|j: int|
                    0 <= j < k ==> UNIT <= (#[trigger] cities@[j]).x <= side && UNIT
                        <= cities@[j].y <= side,
            decreases num_cities - k,
        {
            let x = rng.coordinate_in(UNIT, side);
            let y = rng.coordinate_in(UNIT, side);
            cities.push(City { id: k, x, y });
            k += 1;
        }
        proof {
            assert(cities_in_bounds(cities@));
            assert(is_square_side(
                side as int,
                (num_cities as int) * (UNIT as int) * (UNIT as int),
            ));
            assert(fresh_city_placement(cities@, num_cities as int));
        }
        let total = tour_cost(&cities);
        Itinerary { cities, total }
    }

    /// An exact copy of the tour, cached cost included.
    pub fn duplicate(&self) -> (r: Itinerary)
        ensures
            r@ == self@,
            r.spec_total() == self.spec_total(),
    {
        let mut cities: Vec<City> = Vec::new();
        let mut k: usize = 0;
        while k < self.cities.len()
            invariant
                k <= self.cities@.len(),
                cities@.len() == k,
                forall|j: int| 0 <= j < k ==> cities@[j] == self.cities@[j],
            decreases self.cities@.len() - k,
        {
            cities.push(self.cities[k]);
            k += 1;
        }
        proof {
            assert(cities@ =~= self.cities@);
        }
        Itinerary { cities, total: self.total }
    }

    /// The tour with the segment `[lo, hi]` reversed in place (a 2-opt move)
    /// and the cost recomputed from scratch; `self` is left untouched. The
    /// result visits exactly the cities of `self`: a permutation of the same
    /// multiset, of identical length.
    pub fn reversed_between(&self, lo: usize, hi: usize) -> (r: Itinerary)
        requires
            self.wf(),
            lo < hi,
            hi < self@.len(),
        ensures
            r.wf(),
            is_segment_reversal(self@, r@, lo as int, hi as int),
            r@.to_multiset() == self@.to_multiset(),
    {
        let ghost s = self.cities@;
        let mut cities = self.duplicate().into_cities();
        let mut i = lo;
        let mut j = hi;
        while i < j
            invariant
                lo <= i,
                j <= hi < s.len(),
                i + j == lo + hi,
                i <= j + 1,
                cities@.len() == s.len(),
                forall|k: int| 0 <= k < s.len() && !(lo <= k <= hi) ==> cities@[k] == s[k],
                forall|k: int| lo <= k < i ==> cities@[k] == s[lo + hi - k],
                forall|k: int| j < k <= hi ==> cities@[k] == s[lo + hi - k],
                forall|k: int| i <= k <= j ==> cities@[k] == s[k],
            decreases hi + 1 - i,
        {
            let a = cities[i];
            let b = cities[j];
            cities.set(i, b);
            cities.set(j, a);
            i += 1;
            j -= 1;
        }
        proof {
            assert(forall|k: int| lo <= k <= hi ==> cities@[k] == s[lo + hi - k]);
            assert forall|k: int| 0 <= k < s.len() implies city_in_bounds(#[trigger] cities@[k]) by {
                if lo <= k <= hi {
                    assert(cities@[k] == s[lo + hi - k]);
                    assert(city_in_bounds(s[lo + hi - k]));
                } else {
                    assert(city_in_bounds(s[k]));
                }
            }
            assert(cities_in_bounds(cities@));
            lemma_reversed_multiset(s, cities@, lo as int, hi as int);
        }
        let total = tour_cost(&cities);
        Itinerary { cities, total }
    }

    /// The sequence of cities, surrendering the itinerary.
    fn into_cities(self) -> (r: Vec<City>)
        ensures
            r@ == self@,
    {
        self.cities
    }

    /// A proposal derived from this tour: reverse a random contiguous segment
    /// (the 2-opt move) and recompute the cost. On every draw the result is a
    /// genuine segment reversal, hence a permutation of this tour's city
    /// multiset with identical length; the original is left untouched.
    pub fn generate_new<R: RandomSource>(&self, rng: &mut R) -> (r: Itinerary)
        requires
            self.wf(),
        ensures
            r.wf(),
            r@.len() == self@.len(),
            r@.to_multiset() == self@.to_multiset(),
            exists|lo: int, hi: int| is_segment_reversal(self@, r@, lo, hi),
    {
        let (lo, hi) = generate_swap_indices(self.cities.len(), rng);
        let r = self.reversed_between(lo, hi);
        proof {
            assert(is_segment_reversal(self@, r@, lo as int, hi as int));
        }
        r
    }

    /// The average leg of the tour: the total cost divided by the number of
    /// legs (rounded down, in coordinate units).
    pub fn average_step_length(&self) -> (r: u64)
        requires
            self.wf(),
        ensures
            r == self.spec_total() / (self@.len() as u64),
    {
        self.total / (self.cities.len() as u64)
    }
}

/// `t` is `s` with exactly the contiguous segment `[lo, hi]` reversed and
/// everything outside it untouched.
pub open spec fn is_segment_reversal(s: Seq<City>, t: Seq<City>, lo: int, hi: int) -> bool {
    &&& 0 <= lo < hi < s.len()
    &&& t.len() == s.len()
    &&& forall|k: int| lo <= k <= hi ==> t[k] == s[lo + hi - k]
    &&& forall|k: int| 0 <= k < s.len() && !(lo <= k <= hi) ==> t[k] == s[k]
}

/// `s` is a tour as fresh generation lays it out: city `k` carries id `k`, and
/// every coordinate lies in `[UNIT, side]` where `side` is the integer square
/// root of `num_cities * UNIT * UNIT` — the fixed-point `[1, sqrt(num_cities)]`
/// square.
pub open spec fn fresh_city_placement(s: Seq<City>, num_cities: int) -> bool {
    &&& s.len() == num_cities
    &&& forall|k: int| 0 <= k < s.len() ==> (#[trigger] s[k]).id == k
    &&& exists|side: u64|
        #[trigger] is_square_side(side as int, num_cities * (UNIT as int) * (UNIT as int))
            && forall|k: int|
            0 <= k < s.len() ==> UNIT <= (#[trigger] s[k]).x <= side && UNIT <= s[k].y <= side
}

/// A sequence with one contiguous segment reversed holds the same multiset of
/// cities as the original.
proof fn lemma_reversed_multiset(s: Seq<City>, t: Seq<City>, lo: int, hi: int)
    requires
        0 <= lo < hi < s.len(),
        t.len() == s.len(),
        forall|k: int| 0 <= k < s.len() && !(lo <= k <= hi) ==> t[k] == s[k],
        forall|k: int| lo <= k <= hi ==> t[k] == s[lo + hi - k],
    ensures
        t.to_multiset() == s.to_multiset(),
{
    let a = s.subrange(0, lo);
    let b = s.subrange(lo, hi + 1);
    let c = s.subrange(hi + 1, s.len() as int);
    assert(s =~= a + b + c);
    assert(t =~= a + b.reverse() + c);
    lemma_multiset_commutative(a + b, c);
    lemma_multiset_commutative(a, b);
    lemma_multiset_commutative(a + b.reverse(), c);
    lemma_multiset_commutative(a, b.reverse());
    b.lemma_reverse_to_multiset();
    assert(t.to_multiset() =~= s.to_multiset());
}

/// Two distinct random indices below `len`, in increasing order. Drawing the
/// second index from the remaining `len - 1` slots and shifting it past the
/// first gives the same distribution as redrawing until the two differ, with
/// exactly two draws.
fn generate_swap_indices<R: RandomSource>(len: usize, rng: &mut R) -> (r: (usize, usize))
    requires
        2 <= len,
    ensures
        r.0 < r.1 < len,
{
    let first = rng.index_below(len);
    let off = rng.index_below(len - 1);
    let second = if off >= first {
        off + 1
    } else {
        off
    };
    if first < second {
        (first, second)
    } else {
        (second, first)
    }
}

/// `side` is the integer square root of `area`.
pub open spec fn is_square_side(side: int, area: int) -> bool {
    side * side <= area < (side + 1) * (side + 1)
}

/// Integer square root by bisection.
fn isqrt(x: u64) -> (r: u64)
    requires
        x < 0x4000_0000_0000_0000,
    ensures
        is_square_side(r as int, x as int),
{
    let mut lo: u64 = 0;
    let mut hi: u64 = 0x8000_0000;
    while lo + 1 < hi
        invariant
            lo < hi <= 0x8000_0000,
            (lo as int) * (lo as int) <= x as int,
            (hi as int) * (hi as int) > x as int,
        decreases hi - lo,
    {
        let mid = lo + (hi - lo) / 2;
        proof {
            assert((mid as int) * (mid as int) <= 0x4000_0000_0000_0000) by (nonlinear_arith)
                requires
                    mid <= 0x8000_0000,
            ;
        }
        if mid * mid <= x {
            lo = mid;
        } else {
            hi = mid;
        }
    }
    lo
}

/// Recompute the cost of the closed tour through `cities` from scratch,
/// exactly `spec_tour_cost`.
pub fn tour_cost(cities: &Vec<City>) -> (r: u64)
    requires
        1 <= cities@.len() <= MAX_CITIES,
        cities_in_bounds(cities@),
    ensures
        r == spec_tour_cost(cities@),
{
    let ghost s = cities@;
    let len = cities.len();
    let mut cost: u64 = manhattan(&cities[0], &cities[len - 1]);
    let mut i: usize = 1;
    proof {
        assert(s.take(1).len() == 1);
    }
    while i < len
        invariant
            1 <= i <= len,
            len == s.len() <= MAX_CITIES,
            s == cities@,
            cities_in_bounds(s),
            cost == spec_manhattan(s[0], s[len - 1]) + spec_path_cost(s.take(i as int)),
            cost <= 2 * (COORD_LIMIT as int) * (i as int),
        decreases len - i,
    {
        let edge = manhattan(&cities[i], &cities[i - 1]);
        proof {
            lemma_path_cost_take_step(s, i as int);
            lemma_manhattan_symmetry(s[i as int], s[i - 1]);
            assert(city_in_bounds(s[i as int]));
            assert(edge <= 2 * (COORD_LIMIT as int));
            assert(cost + edge <= 2 * (COORD_LIMIT as int) * (i as int + 1)) by (nonlinear_arith)
                requires
                    cost <= 2 * (COORD_LIMIT as int) * (i as int),
                    edge <= 2 * (COORD_LIMIT as int),
                    i >= 1,
            ;
            assert(2 * (COORD_LIMIT as int) * (i as int + 1) <= 2 * (COORD_LIMIT as int) * (
            MAX_CITIES as int)) by (nonlinear_arith)
                requires
                    1 <= i as int + 1 <= MAX_CITIES as int,
            ;
        }
        cost = cost + edge;
        i += 1;
    }
    proof {
        assert(s.take(len as int) =~= s);
    }
    cost
}

} // verus!
