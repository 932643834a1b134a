//! Passenger groups and the boarding and alighting rules. A group is an
//! indivisible demand unit with a tagged boarding state; within one bus's
//! stop-tick, alighting is fully resolved before boarding is evaluated,
//! and groups are considered in their creation order.

use vstd::prelude::*;

verus! {

use crate::bus::{route_serves, Bus};

/// An indivisible passenger demand: origin, destination, head count.
#[derive(Clone, Copy, Debug, PartialEq, Eq, Structural)]
pub struct People {
    pub city_from: usize,
    pub city_to: usize,
    pub amount: u32,
}

/// Where a passenger group currently is: waiting at its origin, onboard
/// the bus with the given handle, or delivered at its destination.
#[derive(Clone, Copy, Debug, PartialEq, Eq, Structural)]
pub enum GroupState {
    Waiting,
    Onboard(usize),
    Delivered,
}

/// A passenger group: its demand together with its boarding state.
#[derive(Clone, Copy, Debug, PartialEq, Eq, Structural)]
pub struct PeopleTransit {
    pub people: People,
    pub state: GroupState,
}

/// Whether the group steps off bus `bus_idx` at `stop`: it is onboard that
/// bus and the stop is its destination.
pub open spec fn alights(p: PeopleTransit, bus_idx: usize, stop: usize) -> bool {
    p.state == GroupState::Onboard(bus_idx) && p.people.city_to == stop
}

/// The group after bus `bus_idx`'s alighting phase at `stop`.
pub open spec fn alight_group(p: PeopleTransit, bus_idx: usize, stop: usize) -> PeopleTransit {
    if alights(p, bus_idx, stop) {
        PeopleTransit { state: GroupState::Delivered, ..p }
    } else {
        p
    }
}

/// Whether the group boards a bus whose route from `next_stop` on is
/// `stops`: the group waits at `stop`, its origin, and its destination is
/// among the stops the bus is yet to call at.
pub open spec fn boards(p: PeopleTransit, stop: usize, stops: Seq<usize>, next_stop: usize) -> bool {
    &&& p.state == GroupState::Waiting
    &&& p.people.city_from == stop
    &&& route_serves(stops, next_stop, p.people.city_to)
}

/// The group after bus `bus_idx`'s boarding phase at `stop`.
pub open spec fn board_group(
    p: PeopleTransit,
    bus_idx: usize,
    stop: usize,
    stops: Seq<usize>,
    next_stop: usize,
) -> PeopleTransit {
    if boards(p, stop, stops, next_stop) {
        PeopleTransit { state: GroupState::Onboard(bus_idx), ..p }
    } else {
        p
    }
}

/// Every group after bus `bus_idx`'s alighting phase at `stop`. Groups are
/// independent of one another: the phase is a map.
pub open spec fn alight_all(people: Seq<PeopleTransit>, bus_idx: usize, stop: usize) -> Seq<
    PeopleTransit,
> {
    people.map_values(|p: PeopleTransit| alight_group(p, bus_idx, stop))
}

/// Every group after bus `bus_idx`'s boarding phase at `stop`.
pub open spec fn board_all(
    people: Seq<PeopleTransit>,
    bus_idx: usize,
    stop: usize,
    stops: Seq<usize>,
    next_stop: usize,
) -> Seq<PeopleTransit> {
    people.map_values(|p: PeopleTransit| board_group(p, bus_idx, stop, stops, next_stop))
}

/// How many passengers among the first `n` groups step off bus `bus_idx`
/// at `stop`.
pub open spec fn alight_total(people: Seq<PeopleTransit>, bus_idx: usize, stop: usize, n: int) -> nat
    decreases n,
{
    if n <= 0 {
        0
    } else {
        alight_total(people, bus_idx, stop, n - 1) + if alights(people[n - 1], bus_idx, stop) {
            people[n - 1].people.amount as nat
        } else {
            0
        }
    }
}

/// How many passengers among the first `n` groups board at `stop` a bus
/// whose route from `next_stop` on is `stops`.
pub open spec fn board_total(
    people: Seq<PeopleTransit>,
    stop: usize,
    stops: Seq<usize>,
    next_stop: usize,
    n: int,
) -> nat
    decreases n,
{
    if n <= 0 {
        0
    } else {
        board_total(people, stop, stops, next_stop, n - 1) + if boards(
            people[n - 1],
            stop,
            stops,
            next_stop,
        ) {
            people[n - 1].people.amount as nat
        } else {
            0
        }
    }
}

/// Runs bus `bus_idx`'s alighting phase at `stop` over every group in
/// creation order; returns how many passengers stepped off.
pub(crate) fn alight_pass(people: &mut Vec<PeopleTransit>, bus_idx: usize, stop: usize) -> (off:
    u64)
    requires
        old(people)@.len() <= 0xFFFF_FFFF,
    ensures
        final(people)@ == alight_all(old(people)@, bus_idx, stop),
        off as int == alight_total(old(people)@, bus_idx, stop, old(people)@.len() as int),
{
    let mut off: u64 = 0;
    let mut j: usize = 0;
    let n: usize = people.len();
    while j < n
        invariant
            n == people@.len(),
            people@.len() == old(people)@.len(),
            old(people)@.len() <= 0xFFFF_FFFF,
            j <= n,
            forall|q: int|
                0 <= q < j ==> #[trigger] people@[q] == alight_group(
                    old(people)@[q],
                    bus_idx,
                    stop,
                ),
            forall|q: int| j <= q < people@.len() ==> #[trigger] people@[q] == old(people)@[q],
            off as int == alight_total(old(people)@, bus_idx, stop, j as int),
            off as int <= j as int * 0xFFFF_FFFF,
        decreases n - j,
    {
        let p = people[j];
        let mine: bool = match p.state {
            GroupState::Onboard(h) => h == bus_idx,
            _ => false,
        };
        if mine && p.people.city_to == stop {
            people[j] = PeopleTransit { people: p.people, state: GroupState::Delivered };
            off = off + (p.people.amount as u64);
        }
        j = j + 1;
    }
    proof {
        assert(people@ =~= alight_all(old(people)@, bus_idx, stop));
    }
    off
}

/// Runs bus `bus_idx`'s boarding phase at `stop` over every group in
/// creation order; returns how many passengers got on.
pub(crate) fn board_pass(
    people: &mut Vec<PeopleTransit>,
    bus: &Bus,
    bus_idx: usize,
    stop: usize,
) -> (on: u64)
    requires
        old(people)@.len() <= 0xFFFF_FFFF,
        bus.wf(),
    ensures
        final(people)@ == board_all(old(people)@, bus_idx, stop, bus@.stops, bus@.next_stop),
        on as int == board_total(
            old(people)@,
            stop,
            bus@.stops,
            bus@.next_stop,
            old(people)@.len() as int,
        ),
{
    let mut on: u64 = 0;
    let mut j: usize = 0;
    let n: usize = people.len();
    while j < n
        invariant
            n == people@.len(),
            people@.len() == old(people)@.len(),
            old(people)@.len() <= 0xFFFF_FFFF,
            bus.wf(),
            j <= n,
            forall|q: int|
                0 <= q < j ==> #[trigger] people@[q] == board_group(
                    old(people)@[q],
                    bus_idx,
                    stop,
                    bus@.stops,
                    bus@.next_stop,
                ),
            forall|q: int| j <= q < people@.len() ==> #[trigger] people@[q] == old(people)@[q],
            on as int == board_total(old(people)@, stop, bus@.stops, bus@.next_stop, j as int),
            on as int <= j as int * 0xFFFF_FFFF,
        decreases n - j,
    {
        let p = people[j];
        let waiting: bool = match p.state {
            GroupState::Waiting => true,
            _ => false,
        };
        if waiting && p.people.city_from == stop && bus.will_visit(p.people.city_to) {
            people[j] = PeopleTransit { people: p.people, state: GroupState::Onboard(bus_idx) };
            on = on + (p.people.amount as u64);
        }
        j = j + 1;
    }
    proof {
        assert(people@ =~= board_all(old(people)@, bus_idx, stop, bus@.stops, bus@.next_stop));
    }
    on
}

} // verus!
