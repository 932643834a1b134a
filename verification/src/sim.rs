//! The simulation: setup surface and the tick engine. The engine is the
//! sole mutator; `run_model` is the mathematical account of a whole run,
//! and `execute` is proved to produce exactly its event log.

use vstd::prelude::*;

verus! {

use crate::bus::{at_stop, bus_basic_wf, bus_step_model, current_stop, Bus, BusModel};
use crate::events::{BusStopEvent, BusStopEventModel, Event};
use crate::network::{
    connects, find_road, find_road_spec, has_road, lemma_find_from_found, lemma_find_from_none,
    lemma_has_road_valid_cities, order_pair, road_dist, road_wf, spec_order_pair, ConfigError,
    Road, Vertex,
};
use crate::people::{
    alight_all, alight_group, alight_pass, alight_total, board_all, board_group, board_pass,
    board_total, GroupState, People, PeopleTransit,
};

/// Most passenger groups one simulation accepts: with group sizes in `u32`,
/// every per-tick passenger count then fits in `u64`.
pub const MAX_GROUPS: usize = 0xFFFF_FFFF;

/// The abstract state of a simulation: city names, roads, buses and
/// passenger groups in their creation order, and whether the run happened.
pub struct SimModel {
    pub cities: Seq<Seq<char>>,
    pub roads: Seq<Road>,
    pub buses: Seq<BusModel>,
    pub people: Seq<PeopleTransit>,
    pub ran: bool,
}

/// A group's state names only buses that exist.
pub open spec fn group_wf(p: PeopleTransit, n_buses: nat) -> bool {
    p.state matches GroupState::Onboard(h) ==> (h as nat) < n_buses
}

/// A bus of the fleet is well formed and calls only at known cities.
pub open spec fn bus_wf(b: BusModel, n_cities: nat) -> bool {
    &&& bus_basic_wf(b)
    &&& forall|i: int| 0 <= i < b.stops.len() ==> ((#[trigger] b.stops[i]) as nat) < n_cities
}

/// The simulation's invariant: the group arena is bounded, roads are well
/// formed and join each unordered pair at most once, buses are well formed,
/// and groups sit only on buses that exist.
pub open spec fn sim_wf(m: SimModel) -> bool {
    &&& m.people.len() <= MAX_GROUPS
    &&& (forall|i: int| 0 <= i < m.roads.len() ==> road_wf(#[trigger] m.roads[i], m.cities.len()))
    &&& (forall|i: int, j: int|
        0 <= i < j < m.roads.len() ==> !connects(
            #[trigger] m.roads[j],
            (#[trigger] m.roads[i]).city_0,
            m.roads[i].city_1,
        ))
    &&& (forall|i: int| 0 <= i < m.buses.len() ==> bus_wf(#[trigger] m.buses[i], m.cities.len()))
    &&& (forall|g: int| 0 <= g < m.people.len() ==> group_wf(#[trigger] m.people[g], m.buses.len()))
}

/// Every consecutive pair of stops is joined by a road.
pub open spec fn route_connected(roads: Seq<Road>, stops: Seq<usize>) -> bool {
    forall|i: int| 0 <= i < stops.len() - 1 ==> has_road(roads, #[trigger] stops[i], stops[i + 1])
}

/// The travel time of each leg of a connected route.
pub open spec fn route_ttf(roads: Seq<Road>, stops: Seq<usize>) -> Seq<usize> {
    Seq::new((stops.len() - 1) as nat, |i: int| road_dist(roads, stops[i], stops[i + 1]))
}

/// A freshly admitted bus: at its first stop, with precomputed leg times.
pub open spec fn init_bus_model(roads: Seq<Road>, stops: Seq<usize>) -> BusModel {
    BusModel {
        stops,
        ttf: route_ttf(roads, stops),
        next_stop: 0,
        remaining: 0,
        done: false,
    }
}

/// Bus `i`'s turn within the tick numbered `k`. A retired bus does nothing.
/// A bus at a stop first lets groups alight, then board, reports the one
/// event of this stop-tick, and then advances; a moving bus only advances.
pub open spec fn process_bus(m: SimModel, k: usize, i: usize) -> (SimModel, Seq<Event>) {
    let b = m.buses[i as int];
    if b.done {
        (m, Seq::<Event>::empty())
    } else if at_stop(b) {
        let stop = current_stop(b);
        let off = alight_total(m.people, i, stop, m.people.len() as int);
        let p1 = alight_all(m.people, i, stop);
        let on = board_total(p1, stop, b.stops, b.next_stop, p1.len() as int);
        let p2 = board_all(p1, i, stop, b.stops, b.next_stop);
        let ev = Event { city: stop, ticks: k, on: on as u64, off: off as u64 };
        (
            SimModel { people: p2, buses: m.buses.update(i as int, bus_step_model(b)), ..m },
            seq![ev],
        )
    } else {
        (SimModel { buses: m.buses.update(i as int, bus_step_model(b)), ..m }, Seq::<Event>::empty())
    }
}

/// The turns of buses `0..i` of the tick numbered `k`, in creation order.
pub open spec fn tick_upto(m: SimModel, k: usize, i: int) -> (SimModel, Seq<Event>)
    decreases i,
{
    if i <= 0 {
        (m, Seq::<Event>::empty())
    } else {
        let prev = tick_upto(m, k, i - 1);
        let step = process_bus(prev.0, k, (i - 1) as usize);
        (step.0, prev.1 + step.1)
    }
}

/// One whole tick: every bus takes its turn, in creation order.
pub open spec fn tick_model(m: SimModel, k: usize) -> (SimModel, Seq<Event>) {
    tick_upto(m, k, m.buses.len() as int)
}

/// The ticks numbered `0..n`, in order, with their events concatenated.
pub open spec fn run_upto(m: SimModel, n: int) -> (SimModel, Seq<Event>)
    decreases n,
{
    if n <= 0 {
        (m, Seq::<Event>::empty())
    } else {
        let prev = run_upto(m, n - 1);
        let t = tick_model(prev.0, (n - 1) as usize);
        (t.0, prev.1 + t.1)
    }
}

/// What a whole run does. The run marks the simulation as consumed. With
/// `t == 0` no tick happens and the log is empty; with `t >= 1` the ticks
/// numbered `0` (origin boarding) through `t` inclusive are executed.
pub open spec fn run_model(m: SimModel, t: usize) -> (SimModel, Seq<Event>) {
    let m0 = SimModel { ran: true, ..m };
    if t == 0 {
        (m0, Seq::<Event>::empty())
    } else {
        run_upto(m0, t + 1)
    }
}

/// A bus's turn preserves the simulation invariant and the shape of the
/// state: it never adds or removes cities, roads, buses or groups.
pub proof fn lemma_process_bus_wf(m: SimModel, k: usize, i: usize)
    requires
        sim_wf(m),
        (i as int) < m.buses.len(),
    ensures
        ({
            let r = process_bus(m, k, i);
            &&& sim_wf(r.0)
            &&& r.0.cities == m.cities
            &&& r.0.roads == m.roads
            &&& r.0.ran == m.ran
            &&& r.0.buses.len() == m.buses.len()
            &&& r.0.people.len() == m.people.len()
        }),
{
    let b = m.buses[i as int];
    crate::bus::lemma_bus_step_wf(b);
    let r = process_bus(m, k, i);
    if !b.done {
        assert forall|q: int| 0 <= q < r.0.buses.len() implies bus_wf(
            #[trigger] r.0.buses[q],
            r.0.cities.len(),
        ) by {
            if q == i as int {
                assert(r.0.buses[q] == bus_step_model(b));
                assert(bus_wf(b, m.cities.len()));
            } else {
                assert(r.0.buses[q] == m.buses[q]);
            }
        }
        if at_stop(b) {
            let stop = current_stop(b);
            let p1 = alight_all(m.people, i, stop);
            let p2 = board_all(p1, i, stop, b.stops, b.next_stop);
            assert forall|g: int| 0 <= g < p2.len() implies group_wf(
                #[trigger] p2[g],
                r.0.buses.len(),
            ) by {
                assert(p1[g] == alight_group(m.people[g], i, stop));
                assert(p2[g] == board_group(p1[g], i, stop, b.stops, b.next_stop));
                assert(group_wf(m.people[g], m.buses.len()));
            }
        }
    }
}

/// A deterministic, tick-based transit simulation: a fixed set of cities
/// joined by weighted roads, a fleet of buses on pre-validated routes, and
/// passenger groups that travel as indivisible units. Setup happens before
/// the one call to `execute`; all entities live in arenas and are named by
/// dense integer handles in creation order.
pub struct Simulation {
    cities: Vec<Vertex>,
    roads: Vec<Road>,
    buses: Vec<Bus>,
    people: Vec<PeopleTransit>,
    ran: bool,
}

impl View for Simulation {
    type V = SimModel;

    closed spec fn view(&self) -> SimModel {
        SimModel {
            cities: self.cities@.map_values(|v: Vertex| v@),
            roads: self.roads@,
            buses: self.buses@.map_values(|b: Bus| b@),
            people: self.people@,
            ran: self.ran,
        }
    }
}

impl Simulation {
    /// The simulation's invariant.
    pub open spec fn wf(&self) -> bool {
        sim_wf(self@)
    }

    /// A fresh, empty simulation.
    pub fn new() -> (sim: Simulation)
        ensures
            sim.wf(),
            sim@ == (SimModel {
                cities: Seq::<Seq<char>>::empty(),
                roads: Seq::<Road>::empty(),
                buses: Seq::<BusModel>::empty(),
                people: Seq::<PeopleTransit>::empty(),
                ran: false,
            }),
    {
        let sim = Simulation {
            cities: Vec::new(),
            roads: Vec::new(),
            buses: Vec::new(),
            people: Vec::new(),
            ran: false,
        };
        proof {
            assert(sim@.cities =~= Seq::<Seq<char>>::empty());
            assert(sim@.buses =~= Seq::<BusModel>::empty());
        }
        sim
    }

    /// Adds a city; always succeeds. Handles are dense and stable, assigned
    /// in creation order.
    pub fn new_city(&mut self, city_name: &str) -> (h: usize)
        requires
            old(self).wf(),
            !old(self)@.ran,
        ensures
            final(self).wf(),
            h == old(self)@.cities.len(),
            final(self)@ == (SimModel {
                cities: old(self)@.cities.push(city_name@),
                ..old(self)@
            }),
    {
        let h: usize = self.cities.len();
        self.cities.push(Vertex::new(city_name));
        proof {
            assert(self@.cities =~= old(self)@.cities.push(city_name@));
        }
        h
    }

    /// Registers a passenger group; always succeeds and returns its handle.
    /// The group starts `Waiting`; one whose origin no bus ever serves just
    /// waits forever.
    pub fn add_people(&mut self, city_from: usize, city_to: usize, amount: u32) -> (g: usize)
        requires
            old(self).wf(),
            !old(self)@.ran,
            old(self)@.people.len() < MAX_GROUPS,
        ensures
            final(self).wf(),
            g == old(self)@.people.len(),
            final(self)@ == (SimModel {
                people: old(self)@.people.push(
                    PeopleTransit {
                        people: People { city_from, city_to, amount },
                        state: GroupState::Waiting,
                    },
                ),
                ..old(self)@
            }),
    {
        let g: usize = self.people.len();
        self.people.push(
            PeopleTransit {
                people: People { city_from, city_to, amount },
                state: GroupState::Waiting,
            },
        );
        g
    }

    /// Adds an undirected road between two cities. Fails with `UnknownCity`
    /// if either handle was never created, then with `InvalidDistance` if
    /// the road would take no time, then with `DuplicateRoad` if the
    /// unordered pair is already joined. On success the distance is stored
    /// keyed by the canonically ordered pair, so lookups are symmetric, and
    /// the road's handle is returned.
    pub fn new_road(&mut self, city_0: usize, city_1: usize, duration: usize) -> (r: Result<
        usize,
        ConfigError,
    >)
        requires
            old(self).wf(),
            !old(self)@.ran,
        ensures
            final(self).wf(),
            r is Ok <==> ((city_0 as int) < old(self)@.cities.len() && (city_1 as int) < old(
                self,
            )@.cities.len() && duration >= 1 && !has_road(old(self)@.roads, city_0, city_1)),
            ((city_0 as int) >= old(self)@.cities.len() || (city_1 as int) >= old(
                self,
            )@.cities.len()) ==> r == Err::<usize, ConfigError>(ConfigError::UnknownCity),
            ((city_0 as int) < old(self)@.cities.len() && (city_1 as int) < old(
                self,
            )@.cities.len() && duration == 0) ==> r == Err::<usize, ConfigError>(
                ConfigError::InvalidDistance,
            ),
            ((city_0 as int) < old(self)@.cities.len() && (city_1 as int) < old(
                self,
            )@.cities.len() && duration >= 1 && has_road(old(self)@.roads, city_0, city_1)) ==> r
                == Err::<usize, ConfigError>(ConfigError::DuplicateRoad),
            r matches Ok(h) ==> h == old(self)@.roads.len() && final(self)@ == (SimModel {
                roads: old(self)@.roads.push(
                    Road {
                        city_0: spec_order_pair(city_0, city_1).0,
                        city_1: spec_order_pair(city_0, city_1).1,
                        duration,
                    },
                ),
                ..old(self)@
            }),
            r is Err ==> final(self)@ == old(self)@,
    {
        if city_0 >= self.cities.len() || city_1 >= self.cities.len() {
            return Err(ConfigError::UnknownCity);
        }
        if duration == 0 {
            return Err(ConfigError::InvalidDistance);
        }
        if find_road(&self.roads, city_0, city_1).is_some() {
            return Err(ConfigError::DuplicateRoad);
        }
        let (lo, hi) = order_pair(city_0, city_1);
        let h: usize = self.roads.len();
        self.roads.push(Road { city_0: lo, city_1: hi, duration });
        proof {
            let m = old(self)@;
            lemma_find_from_none(m.roads, city_0, city_1, 0);
            assert forall|i: int, j: int| 0 <= i < j < self@.roads.len() implies !connects(
                #[trigger] self@.roads[j],
                (#[trigger] self@.roads[i]).city_0,
                self@.roads[i].city_1,
            ) by {
                if j == m.roads.len() {
                    assert(!connects(m.roads[i], city_0, city_1));
                }
            }
        }
        Ok(h)
    }

    /// The symmetric distance between two directly connected cities; fails
    /// with `NoRoad` if no road joins them.
    pub fn distance_between(&self, city_0: usize, city_1: usize) -> (r: Result<usize, ConfigError>)
        ensures
            has_road(self@.roads, city_0, city_1) ==> r == Ok::<usize, ConfigError>(
                road_dist(self@.roads, city_0, city_1),
            ),
            !has_road(self@.roads, city_0, city_1) ==> r == Err::<usize, ConfigError>(
                ConfigError::NoRoad,
            ),
    {
        match find_road(&self.roads, city_0, city_1) {
            Some(i) => {
                proof {
                    lemma_find_from_found(self@.roads, city_0, city_1, 0);
                }
                Ok(self.roads[i].duration)
            },
            None => Err(ConfigError::NoRoad),
        }
    }

    /// Admits a bus for the given route. Fails with `RouteTooShort` for
    /// fewer than two stops, then with `NoRoadBetweenStops` if a consecutive
    /// pair of stops is not joined by a road. On success the leg travel
    /// times are precomputed, so the bus never queries the network during
    /// the run, and the bus's handle is returned.
    pub fn new_bus(&mut self, stops: &Vec<usize>) -> (r: Result<usize, ConfigError>)
        requires
            old(self).wf(),
            !old(self)@.ran,
        ensures
            final(self).wf(),
            r is Ok <==> (stops@.len() >= 2 && route_connected(old(self)@.roads, stops@)),
            stops@.len() < 2 ==> r == Err::<usize, ConfigError>(ConfigError::RouteTooShort),
            (stops@.len() >= 2 && !route_connected(old(self)@.roads, stops@)) ==> r == Err::<
                usize,
                ConfigError,
            >(ConfigError::NoRoadBetweenStops),
            r matches Ok(h) ==> h == old(self)@.buses.len() && final(self)@ == (SimModel {
                buses: old(self)@.buses.push(init_bus_model(old(self)@.roads, stops@)),
                ..old(self)@
            }),
            r is Err ==> final(self)@ == old(self)@,
    {
        if stops.len() < 2 {
            return Err(ConfigError::RouteTooShort);
        }
        let mut ttf_roads: Vec<usize> = Vec::new();
        let n_legs: usize = stops.len() - 1;
        let mut i: usize = 0;
        while i < n_legs
            invariant
                old(self).wf(),
                n_legs == stops@.len() - 1,
                stops@.len() >= 2,
                i <= n_legs,
                self@ == old(self)@,
                ttf_roads@.len() == i,
                forall|q: int|
                    0 <= q < i ==> has_road(old(self)@.roads, #[trigger] stops@[q], stops@[q + 1]),
                forall|q: int|
                    0 <= q < i ==> #[trigger] ttf_roads@[q] == road_dist(
                        old(self)@.roads,
                        stops@[q],
                        stops@[q + 1],
                    ),
            decreases n_legs - i,
        {
            match find_road(&self.roads, stops[i], stops[i + 1]) {
                Some(road_idx) => {
                    proof {
                        lemma_find_from_found(self@.roads, stops@[i as int], stops@[i + 1], 0);
                    }
                    ttf_roads.push(self.roads[road_idx].duration);
                },
                None => {
                    proof {
                        assert(!has_road(old(self)@.roads, stops@[i as int], stops@[i + 1]));
                    }
                    return Err(ConfigError::NoRoadBetweenStops);
                },
            }
            i = i + 1;
        }
        proof {
            let m = old(self)@;
            assert(route_connected(m.roads, stops@));
            assert(ttf_roads@ =~= route_ttf(m.roads, stops@));
            assert forall|q: int| 0 <= q < ttf_roads@.len() implies #[trigger] ttf_roads@[q] >= 1 by {
                lemma_has_road_valid_cities(m.roads, stops@[q], stops@[q + 1], m.cities.len());
            }
        }
        let h: usize = self.buses.len();
        let bus = Bus::new(stops.clone(), ttf_roads);
        self.buses.push(bus);
        proof {
            let m = old(self)@;
            assert(self@.buses =~= m.buses.push(init_bus_model(m.roads, stops@)));
            assert forall|q: int|
                0 <= q < init_bus_model(m.roads, stops@).stops.len() implies ((
            #[trigger] init_bus_model(m.roads, stops@).stops[q]) as nat) < m.cities.len() by {
                if q < stops@.len() - 1 {
                    lemma_has_road_valid_cities(m.roads, stops@[q], stops@[q + 1], m.cities.len());
                } else {
                    lemma_has_road_valid_cities(
                        m.roads,
                        stops@[q - 1],
                        stops@[q],
                        m.cities.len(),
                    );
                }
            }
        }
        Ok(h)
    }

    /// One tick: each bus takes its turn in creation order — a bus at a
    /// stop first resolves alighting, then boarding, reports exactly one
    /// event, and then departs or retires; a moving bus covers one unit of
    /// road; retired buses are skipped. The tick's events are appended to
    /// the log in bus order.
    fn tick(&mut self, k: usize, events: &mut Vec<Event>)
        requires
            sim_wf(old(self)@),
        ensures
            sim_wf(final(self)@),
            final(self)@ == tick_model(old(self)@, k).0,
            final(events)@ == old(events)@ + tick_model(old(self)@, k).1,
    {
        let ghost m = old(self)@;
        let ghost ev0 = events@;
        let n: usize = self.buses.len();
        let mut i: usize = 0;
        while i < n
            invariant
                sim_wf(self@),
                i <= n,
                n == m.buses.len(),
                self@.buses.len() == n,
                self@ == tick_upto(m, k, i as int).0,
                events@ == ev0 + tick_upto(m, k, i as int).1,
            decreases n - i,
        {
            let ghost mp = self@;
            proof {
                lemma_process_bus_wf(mp, k, i);
            }
            if !self.buses[i].is_finished() {
                if self.buses[i].is_at_stop() {
                    let stop = self.buses[i].get_curr_stop();
                    let off = alight_pass(&mut self.people, i, stop);
                    let on = board_pass(&mut self.people, &self.buses[i], i, stop);
                    events.push(Event { city: stop, ticks: k, on, off });
                    self.buses[i].step();
                    proof {
                        let b = mp.buses[i as int];
                        assert(self@.buses =~= mp.buses.update(i as int, bus_step_model(b)));
                        assert(self@ == process_bus(mp, k, i).0);
                        assert(events@ =~= ev0 + tick_upto(m, k, i as int + 1).1);
                    }
                } else {
                    self.buses[i].step();
                    proof {
                        let b = mp.buses[i as int];
                        assert(self@.buses =~= mp.buses.update(i as int, bus_step_model(b)));
                        assert(self@ == process_bus(mp, k, i).0);
                        assert(events@ =~= ev0 + tick_upto(m, k, i as int + 1).1);
                    }
                }
            } else {
                proof {
                    assert(self@ == process_bus(mp, k, i).0);
                    assert(events@ =~= ev0 + tick_upto(m, k, i as int + 1).1);
                }
            }
            i = i + 1;
        }
    }

    /// Runs the whole simulation and returns its event log. With
    /// `time_units >= 1` the ticks numbered 0 (origin boarding only, since
    /// every bus starts at its first stop) through `time_units` inclusive
    /// are executed; `execute(0)` performs no tick and yields no events.
    /// A simulation can run only once.
    pub fn execute(&mut self, time_units: usize) -> (events: Vec<Event>)
        requires
            old(self).wf(),
            !old(self)@.ran,
            time_units < usize::MAX,
        ensures
            final(self).wf(),
            final(self)@ == run_model(old(self)@, time_units).0,
            events@ == run_model(old(self)@, time_units).1,
            time_units == 0 ==> events@ == Seq::<Event>::empty(),
    {
        self.ran = true;
        let mut events: Vec<Event> = Vec::new();
        proof {
            assert(events@ =~= Seq::<Event>::empty());
        }
        if time_units == 0 {
            return events;
        }
        let ghost m0 = self@;
        let mut k: usize = 0;
        while k <= time_units
            invariant
                sim_wf(self@),
                k <= time_units + 1,
                time_units < usize::MAX,
                1 <= time_units,
                m0 == (SimModel { ran: true, ..old(self)@ }),
                self@ == run_upto(m0, k as int).0,
                events@ == run_upto(m0, k as int).1,
            decreases time_units + 1 - k,
        {
            self.tick(k, &mut events);
            proof {
                assert(events@ =~= run_upto(m0, k as int + 1).1);
            }
            k = k + 1;
        }
        events
    }

    /// Resolves an event against the city arena: the city's name together
    /// with the boarded and alighted counts; `None` for an unknown handle.
    pub fn describe(&self, event: &Event) -> (r: Option<BusStopEvent>)
        ensures
            (event.city as int) < self@.cities.len() ==> (r matches Some(d) && d@ == (
            BusStopEventModel {
                city: self@.cities[event.city as int],
                got_on: event.on,
                got_off: event.off,
            })),
            (event.city as int) >= self@.cities.len() ==> r is None,
    {
        if event.city < self.cities.len() {
            let name = self.cities[event.city].name();
            Some(BusStopEvent::new(name, event.on, event.off))
        } else {
            None
        }
    }

    /// Whether `execute` has already consumed this simulation.
    pub fn has_run(&self) -> (r: bool)
        ensures
            r == self@.ran,
    {
        self.ran
    }

    /// The current boarding state of the group with the given handle.
    pub fn group_state(&self, group: usize) -> (r: Option<GroupState>)
        ensures
            (group as int) < self@.people.len() ==> r == Some(
                self@.people[group as int].state,
            ),
            (group as int) >= self@.people.len() ==> r is None,
    {
        if group < self.people.len() {
            Some(self.people[group].state)
        } else {
            None
        }
    }

    /// Whether the bus with the given handle has retired from the fleet.
    pub fn bus_is_finished(&self, bus: usize) -> (r: Option<bool>)
        ensures
            (bus as int) < self@.buses.len() ==> r == Some(self@.buses[bus as int].done),
            (bus as int) >= self@.buses.len() ==> r is None,
    {
        if bus < self.buses.len() {
            Some(self.buses[bus].is_finished())
        } else {
            None
        }
    }
}

} // verus!
