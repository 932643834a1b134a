//! Cities and the symmetric road network: the canonical store of distances
//! between directly connected city pairs, read-only once the run starts.

use vstd::prelude::*;

verus! {

/// A configuration error raised by a setup call. Every error is detected
/// before the simulation runs; the tick loop itself cannot fail.
#[derive(Clone, Copy, Debug, PartialEq, Eq, Structural)]
pub enum ConfigError {
    /// A city handle was never created.
    UnknownCity,
    /// A road must take at least one tick to travel.
    InvalidDistance,
    /// At most one road may join an unordered pair of cities.
    DuplicateRoad,
    /// No road joins the queried pair of cities.
    NoRoad,
    /// A bus route must name at least two stops.
    RouteTooShort,
    /// Two consecutive stops of a route are not joined by a road.
    NoRoadBetweenStops,
}

/// A city record held in the simulation's arena; the city's handle is its
/// index in that arena.
pub struct Vertex {
    name: String,
}

impl View for Vertex {
    type V = Seq<char>;

    closed spec fn view(&self) -> Seq<char> {
        self.name@
    }
}

impl Vertex {
    /// Wraps a city name.
    pub fn new(city_name: &str) -> (v: Vertex)
        ensures
            v@ == city_name@,
    {
        Vertex { name: city_name.to_owned() }
    }

    /// The city's name.
    pub fn name(&self) -> (r: String)
        ensures
            r@ == self@,
    {
        self.name.clone()
    }
}

/// An undirected road between two cities, stored with its endpoints in
/// canonical order (smaller handle first) so that lookups are symmetric.
#[derive(Clone, Copy, Debug, PartialEq, Eq, Structural)]
pub struct Road {
    pub city_0: usize,
    pub city_1: usize,
    pub duration: usize,
}

/// What `order_pair` returns: the same two handles, smaller first.
pub open spec fn spec_order_pair(a: usize, b: usize) -> (usize, usize) {
    if a <= b {
        (a, b)
    } else {
        (b, a)
    }
}

/// Puts an unordered pair of city handles into canonical order.
pub fn order_pair(a: usize, b: usize) -> (r: (usize, usize))
    ensures
        r == spec_order_pair(a, b),
{
    if a <= b {
        (a, b)
    } else {
        (b, a)
    }
}

/// Whether `road` joins cities `a` and `b`, in either order.
pub open spec fn connects(road: Road, a: usize, b: usize) -> bool {
    (road.city_0 == a && road.city_1 == b) || (road.city_0 == b && road.city_1 == a)
}

/// The index of the first road at position `i` or later joining `a` and `b`.
pub open spec fn find_from(roads: Seq<Road>, a: usize, b: usize, i: int) -> Option<int>
    decreases roads.len() - i,
{
    if i < 0 || i >= roads.len() {
        None
    } else if connects(roads[i], a, b) {
        Some(i)
    } else {
        find_from(roads, a, b, i + 1)
    }
}

/// The index of the first road joining `a` and `b`, if any.
pub open spec fn find_road_spec(roads: Seq<Road>, a: usize, b: usize) -> Option<int> {
    find_from(roads, a, b, 0)
}

/// Whether some road joins `a` and `b`.
pub open spec fn has_road(roads: Seq<Road>, a: usize, b: usize) -> bool {
    find_road_spec(roads, a, b) is Some
}

/// The travel time of the road joining `a` and `b`.
pub open spec fn road_dist(roads: Seq<Road>, a: usize, b: usize) -> usize {
    roads[find_road_spec(roads, a, b)->Some_0].duration
}

/// A stored road is canonically ordered, joins known cities, and takes at
/// least one tick to travel.
pub open spec fn road_wf(road: Road, n_cities: nat) -> bool {
    &&& road.city_0 <= road.city_1
    &&& (road.city_0 as nat) < n_cities
    &&& (road.city_1 as nat) < n_cities
    &&& road.duration >= 1
}

pub proof fn lemma_find_from_found(roads: Seq<Road>, a: usize, b: usize, i: int)
    ensures
        find_from(roads, a, b, i) matches Some(j) ==> i <= j < roads.len() && connects(
            roads[j],
            a,
            b,
        ),
    decreases roads.len() - i,
{
    if 0 <= i < roads.len() && !connects(roads[i], a, b) {
        lemma_find_from_found(roads, a, b, i + 1);
    }
}

pub proof fn lemma_find_from_none(roads: Seq<Road>, a: usize, b: usize, i: int)
    requires
        0 <= i,
        find_from(roads, a, b, i) is None,
    ensures
        forall|j: int| i <= j < roads.len() ==> !connects(#[trigger] roads[j], a, b),
    decreases roads.len() - i,
{
    if 0 <= i < roads.len() && !connects(roads[i], a, b) {
        lemma_find_from_none(roads, a, b, i + 1);
    }
}

/// A pair joined by some road is a pair of known cities, and the road takes
/// at least one tick, provided every stored road is well formed.
pub proof fn lemma_has_road_valid_cities(roads: Seq<Road>, a: usize, b: usize, n_cities: nat)
    requires
        forall|i: int| 0 <= i < roads.len() ==> road_wf(#[trigger] roads[i], n_cities),
        has_road(roads, a, b),
    ensures
        (a as nat) < n_cities,
        (b as nat) < n_cities,
        road_dist(roads, a, b) >= 1,
{
    lemma_find_from_found(roads, a, b, 0);
}

/// Looks up the road joining `a` and `b` by scanning the arena in order.
pub(crate) fn find_road(roads: &Vec<Road>, a: usize, b: usize) -> (r: Option<usize>)
    ensures
        match r {
            Some(i) => find_road_spec(roads@, a, b) == Some(i as int),
            None => find_road_spec(roads@, a, b) is None,
        },
{
    let mut i: usize = 0;
    while i < roads.len()
        invariant
            i <= roads@.len(),
            find_from(roads@, a, b, 0) == find_from(roads@, a, b, i as int),
        decreases roads@.len() - i,
    {
        let road = roads[i];
        if (road.city_0 == a && road.city_1 == b) || (road.city_0 == b && road.city_1 == a) {
            return Some(i);
        }
        i = i + 1;
    }
    None
}

} // verus!
