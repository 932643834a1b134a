//! The bus state machine. A bus owns a pre-validated route and the
//! precomputed travel time of each leg, so it never queries the road
//! network while the simulation runs. Each tick it either serves a stop
//! and departs, covers one unit of road, or retires at its final stop.

use vstd::prelude::*;

verus! {

/// The abstract state of a bus: its route, the travel time of each leg,
/// the cursor to the stop it is at or heading to, the travel time still to
/// cover, and whether it has retired.
pub struct BusModel {
    pub stops: Seq<usize>,
    pub ttf: Seq<usize>,
    pub next_stop: usize,
    pub remaining: usize,
    pub done: bool,
}

/// A bus following a fixed route of at least two stops. It is created at
/// its first stop and retires once it has served its last one.
pub struct Bus {
    stops: Vec<usize>,
    ttf_roads: Vec<usize>,
    next_stop: usize,
    remaining: usize,
    done: bool,
}

impl View for Bus {
    type V = BusModel;

    closed spec fn view(&self) -> BusModel {
        BusModel {
            stops: self.stops@,
            ttf: self.ttf_roads@,
            next_stop: self.next_stop,
            remaining: self.remaining,
            done: self.done,
        }
    }
}

/// A well-formed bus has at least two stops, one leg time per consecutive
/// pair, positive leg times, a cursor inside the route, and retires only at
/// its final stop.
pub open spec fn bus_basic_wf(b: BusModel) -> bool {
    &&& b.stops.len() >= 2
    &&& b.ttf.len() + 1 == b.stops.len()
    &&& (forall|i: int| 0 <= i < b.ttf.len() ==> #[trigger] b.ttf[i] >= 1)
    &&& (b.next_stop as int) < b.stops.len()
    &&& (b.done ==> b.remaining == 0 && b.next_stop as int == b.stops.len() - 1)
}

/// Whether the bus is physically at a stop rather than between two.
pub open spec fn at_stop(b: BusModel) -> bool {
    b.remaining == 0
}

/// The stop the bus is at when `at_stop` holds; otherwise the stop it is
/// heading to.
pub open spec fn current_stop(b: BusModel) -> usize {
    b.stops[b.next_stop as int]
}

/// One tick of movement. A retired bus stays put. A bus at its final stop
/// retires. A bus at an earlier stop departs and covers the first unit of
/// the next leg, so a leg of time `d` is covered in exactly `d` ticks.
/// A moving bus covers one unit.
pub open spec fn bus_step_model(b: BusModel) -> BusModel {
    if b.done {
        b
    } else if b.remaining == 0 {
        if b.next_stop + 1 == b.stops.len() {
            BusModel { done: true, ..b }
        } else {
            BusModel {
                next_stop: (b.next_stop + 1) as usize,
                remaining: (b.ttf[b.next_stop as int] - 1) as usize,
                ..b
            }
        }
    } else {
        BusModel { remaining: (b.remaining - 1) as usize, ..b }
    }
}

/// Whether a step still moves the bus; false exactly when the bus has
/// retired or retires this tick.
pub open spec fn bus_step_moves(b: BusModel) -> bool {
    !(b.done || (b.remaining == 0 && b.next_stop + 1 == b.stops.len()))
}

/// A step preserves the bus's invariant and never changes its route or its
/// leg times.
pub proof fn lemma_bus_step_wf(b: BusModel)
    requires
        bus_basic_wf(b),
    ensures
        bus_basic_wf(bus_step_model(b)),
        bus_step_model(b).stops == b.stops,
        bus_step_model(b).ttf == b.ttf,
{
}

/// Whether the bus is yet to call at `city`, the current stop included.
pub open spec fn route_serves(stops: Seq<usize>, next_stop: usize, city: usize) -> bool {
    exists|q: int| next_stop <= q < stops.len() && stops[q] == city
}

impl Bus {
    /// The bus's structural invariant.
    pub open spec fn wf(&self) -> bool {
        bus_basic_wf(self@)
    }

    /// Builds a bus at the first stop of `stops`, with `ttf_roads` giving
    /// the travel time of each consecutive leg.
    pub fn new(stops: Vec<usize>, ttf_roads: Vec<usize>) -> (bus: Bus)
        requires
            stops@.len() >= 2,
            ttf_roads@.len() + 1 == stops@.len(),
            forall|i: int| 0 <= i < ttf_roads@.len() ==> #[trigger] ttf_roads@[i] >= 1,
        ensures
            bus@ == (BusModel {
                stops: stops@,
                ttf: ttf_roads@,
                next_stop: 0,
                remaining: 0,
                done: false,
            }),
            bus.wf(),
    {
        Bus { stops, ttf_roads, next_stop: 0, remaining: 0, done: false }
    }

    /// Whether the bus is at a stop this tick.
    pub fn is_at_stop(&self) -> (r: bool)
        ensures
            r == at_stop(self@),
    {
        self.remaining == 0
    }

    /// Whether the bus has retired.
    pub fn is_finished(&self) -> (r: bool)
        ensures
            r == self@.done,
    {
        self.done
    }

    /// The stop the bus is at; may only be queried at a stop.
    pub fn get_curr_stop(&self) -> (r: usize)
        requires
            self.wf(),
            at_stop(self@),
        ensures
            r == current_stop(self@),
    {
        self.stops[self.next_stop]
    }

    /// Advances the bus by one tick of movement, as `bus_step_model` says.
    /// Returns whether the bus still moved; on false the bus has retired.
    pub fn step(&mut self) -> (moved: bool)
        requires
            old(self).wf(),
        ensures
            final(self).wf(),
            final(self)@ == bus_step_model(old(self)@),
            moved == bus_step_moves(old(self)@),
    {
        let n: usize = self.stops.len();
        if self.done || (self.remaining == 0 && self.next_stop + 1 == n) {
            self.done = true;
            false
        } else {
            if self.remaining == 0 {
                self.remaining = self.ttf_roads[self.next_stop] - 1;
                self.next_stop = self.next_stop + 1;
            } else {
                self.remaining = self.remaining - 1;
            }
            true
        }
    }

    /// The stops strictly after the current one; may only be queried at a
    /// stop.
    pub fn cities_yet_to_visit(&self) -> (r: Vec<usize>)
        requires
            self.wf(),
            at_stop(self@),
        ensures
            r@ == self@.stops.subrange(self@.next_stop + 1, self@.stops.len() as int),
    {
        let mut ret: Vec<usize> = Vec::new();
        let n: usize = self.stops.len();
        assert(self@.next_stop < n);
        let mut i: usize = self.next_stop + 1;
        while i < self.stops.len()
            invariant
                self@.next_stop + 1 <= i as int <= self@.stops.len(),
                ret@ == self@.stops.subrange(self@.next_stop + 1, i as int),
            decreases self@.stops.len() - i,
        {
            ret.push(self.stops[i]);
            proof {
                assert(ret@ =~= self@.stops.subrange(self@.next_stop + 1, i + 1));
            }
            i = i + 1;
        }
        ret
    }

    /// Whether the bus is yet to call at `city`, the current stop included.
    pub fn will_visit(&self, city: usize) -> (r: bool)
        requires
            self.wf(),
        ensures
            r == route_serves(self@.stops, self@.next_stop, city),
    {
        let mut i: usize = self.next_stop;
        while i < self.stops.len()
            invariant
                self@.next_stop <= i as int <= self@.stops.len(),
                forall|q: int| self@.next_stop <= q < i as int ==> #[trigger] self@.stops[q] != city,
        decreases self@.stops.len() - i,
        {
            if self.stops[i] == city {
                return true;
            }
            i = i + 1;
        }
        false
    }
}

} // verus!
