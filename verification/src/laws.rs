//! The library's stated laws, proved against the run model that `execute`
//! is verified to implement: conservation of passenger groups, one event
//! per bus at a stop per tick, alighting resolved before boarding, and
//! determinism of whole runs.

use vstd::prelude::*;

verus! {

use crate::bus::{at_stop, current_stop, BusModel};
use crate::events::Event;
use crate::people::{alight_all, alight_group, alights, board_all, board_group, boards,
    GroupState, PeopleTransit};
use crate::sim::{process_bus, run_model, run_upto, tick_model, tick_upto, SimModel};

/// How far along its life a group is: waiting, onboard, delivered.
pub open spec fn state_rank(s: GroupState) -> int {
    match s {
        GroupState::Waiting => 0,
        GroupState::Onboard(_) => 1,
        GroupState::Delivered => 2,
    }
}

/// One bus's turn keeps every group's demand intact and only moves its
/// state forward.
proof fn lemma_process_bus_group(m: SimModel, k: usize, i: usize, g: int)
    requires
        0 <= g < m.people.len(),
    ensures
        ({
            let r = process_bus(m, k, i);
            &&& r.0.people.len() == m.people.len()
            &&& r.0.people[g].people == m.people[g].people
            &&& state_rank(r.0.people[g].state) >= state_rank(m.people[g].state)
        }),
{
    let b = m.buses[i as int];
    if !b.done && at_stop(b) {
        let stop = current_stop(b);
        let p1 = alight_all(m.people, i, stop);
        assert(p1[g] == alight_group(m.people[g], i, stop));
        assert(process_bus(m, k, i).0.people[g] == board_group(
            p1[g],
            i,
            stop,
            b.stops,
            b.next_stop,
        ));
    }
}

/// The turns of buses `0..i` keep every group's demand intact and only
/// move its state forward.
proof fn lemma_tick_upto_conservation(m: SimModel, k: usize, i: int, g: int)
    requires
        0 <= g < m.people.len(),
    ensures
        ({
            let r = tick_upto(m, k, i);
            &&& r.0.people.len() == m.people.len()
            &&& r.0.people[g].people == m.people[g].people
            &&& state_rank(r.0.people[g].state) >= state_rank(m.people[g].state)
        }),
    decreases i,
{
    if i > 0 {
        lemma_tick_upto_conservation(m, k, i - 1, g);
        lemma_process_bus_group(tick_upto(m, k, i - 1).0, k, (i - 1) as usize, g);
    }
}

/// Conservation over one tick: a group's origin, destination and size are
/// untouched, and its state only moves forward along
/// `Waiting`, then `Onboard`, then `Delivered`.
pub proof fn lemma_tick_conservation(m: SimModel, k: usize, g: int)
    requires
        0 <= g < m.people.len(),
    ensures
        tick_model(m, k).0.people.len() == m.people.len(),
        tick_model(m, k).0.people[g].people == m.people[g].people,
        state_rank(tick_model(m, k).0.people[g].state) >= state_rank(m.people[g].state),
{
    lemma_tick_upto_conservation(m, k, m.buses.len() as int, g);
}

/// The ticks `0..n` keep every group's demand intact and only move its
/// state forward.
proof fn lemma_run_upto_conservation(m: SimModel, n: int, g: int)
    requires
        0 <= g < m.people.len(),
    ensures
        ({
            let r = run_upto(m, n);
            &&& r.0.people.len() == m.people.len()
            &&& r.0.people[g].people == m.people[g].people
            &&& state_rank(r.0.people[g].state) >= state_rank(m.people[g].state)
        }),
    decreases n,
{
    if n > 0 {
        lemma_run_upto_conservation(m, n - 1, g);
        lemma_tick_conservation(run_upto(m, n - 1).0, (n - 1) as usize, g);
    }
}

/// Conservation: across a whole run every passenger group keeps its
/// origin, destination and size — a group is never split — and since each
/// tick only moves its state forward along `Waiting`, then `Onboard`, then
/// `Delivered` (see `lemma_tick_conservation`), it takes each of those
/// states at most once, in that order; and it leaves `Waiting` only by
/// boarding (see `lemma_waiting_exits_only_by_boarding`).
pub proof fn lemma_conservation(m: SimModel, t: usize, g: int)
    requires
        0 <= g < m.people.len(),
    ensures
        run_model(m, t).0.people.len() == m.people.len(),
        run_model(m, t).0.people[g].people == m.people[g].people,
        state_rank(run_model(m, t).0.people[g].state) >= state_rank(m.people[g].state),
{
    let m0 = SimModel { ran: true, ..m };
    if t != 0 {
        lemma_run_upto_conservation(m0, t + 1, g);
    }
}

/// A waiting group leaves `Waiting` only by boarding: if a bus's turn
/// changes the group's state at all, that bus was at a stop, the stop was
/// the group's origin, the group's destination is among the stops the bus
/// is yet to call at, and the group is onboard exactly that bus
/// afterwards.
pub proof fn lemma_waiting_exits_only_by_boarding(m: SimModel, k: usize, i: usize, g: int)
    requires
        0 <= g < m.people.len(),
        m.people[g].state == GroupState::Waiting,
    ensures
        ({
            let r = process_bus(m, k, i);
            let b = m.buses[i as int];
            r.0.people[g].state != GroupState::Waiting ==> {
                &&& !b.done && at_stop(b)
                &&& boards(m.people[g], current_stop(b), b.stops, b.next_stop)
                &&& r.0.people[g].state == GroupState::Onboard(i)
            }
        }),
{
    let b = m.buses[i as int];
    if !b.done && at_stop(b) {
        let stop = current_stop(b);
        let p1 = alight_all(m.people, i, stop);
        assert(p1[g] == alight_group(m.people[g], i, stop));
        assert(process_bus(m, k, i).0.people[g] == board_group(
            p1[g],
            i,
            stop,
            b.stops,
            b.next_stop,
        ));
    }
}

/// The cities at which the buses at a stop among `0..i` stand, in creation
/// order; retired buses are excluded.
pub open spec fn stop_cities_upto(buses: Seq<BusModel>, i: int) -> Seq<usize>
    decreases i,
{
    if i <= 0 {
        Seq::<usize>::empty()
    } else {
        let pre = stop_cities_upto(buses, i - 1);
        let b = buses[i - 1];
        if !b.done && at_stop(b) {
            pre.push(current_stop(b))
        } else {
            pre
        }
    }
}

/// The turns of buses `0..i` leave the records of buses `i..` untouched.
proof fn lemma_tick_upto_frame(m: SimModel, k: usize, i: int)
    requires
        i <= m.buses.len(),
    ensures
        tick_upto(m, k, i).0.buses.len() == m.buses.len(),
        forall|q: int|
            i <= q < m.buses.len() ==> tick_upto(m, k, i).0.buses[q] == #[trigger] m.buses[q],
    decreases i,
{
    if i > 0 {
        lemma_tick_upto_frame(m, k, i - 1);
    }
}

/// The city each event of a log reports, in log order.
pub open spec fn event_cities(events: Seq<Event>) -> Seq<usize> {
    events.map_values(|e: Event| e.city)
}

/// The events of buses `0..i` are one per bus at a stop, in bus order, at
/// the city where that bus stands, all carrying this tick's number.
proof fn lemma_tick_upto_events(m: SimModel, k: usize, i: int)
    requires
        i <= m.buses.len(),
        m.buses.len() <= usize::MAX,
    ensures
        event_cities(tick_upto(m, k, i).1) =~= stop_cities_upto(m.buses, i),
        forall|j: int|
            0 <= j < tick_upto(m, k, i).1.len() ==> (#[trigger] tick_upto(m, k, i).1[j]).ticks
                == k,
    decreases i,
{
    if i > 0 {
        lemma_tick_upto_events(m, k, i - 1);
        lemma_tick_upto_frame(m, k, i - 1);
        let prev = tick_upto(m, k, i - 1);
        let step = process_bus(prev.0, k, (i - 1) as usize);
        let b = m.buses[i - 1];
        assert(prev.0.buses[i - 1] == b);
        let all = prev.1 + step.1;
        assert(tick_upto(m, k, i).1 == all);
        let mapped = event_cities(all);
        let prev_mapped = event_cities(prev.1);
        let want = stop_cities_upto(m.buses, i);
        assert(mapped.len() == all.len() && prev_mapped.len() == prev.1.len());
        assert forall|j: int| 0 <= j < mapped.len() implies mapped[j] == want[j] by {
            assert(mapped[j] == all[j].city);
            if j < prev.1.len() {
                assert(all[j] == prev.1[j]);
                assert(prev_mapped[j] == prev.1[j].city);
            } else {
                assert(all[j] == step.1[j - prev.1.len()]);
            }
        }
        assert(mapped =~= want);
    }
}

/// Stop-always-reported: within any tick, the buses that are at a stop
/// produce exactly one event each — no event for a moving or retired bus —
/// in bus creation order, each at the city where its bus stands and
/// carrying the tick's number, whoever boards or alights.
pub proof fn lemma_stop_always_reported(m: SimModel, k: usize)
    requires
        m.buses.len() <= usize::MAX,
    ensures
        event_cities(tick_model(m, k).1) == stop_cities_upto(m.buses, m.buses.len() as int),
        forall|j: int|
            0 <= j < tick_model(m, k).1.len() ==> (#[trigger] tick_model(m, k).1[j]).ticks == k,
{
    lemma_tick_upto_events(m, k, m.buses.len() as int);
}

/// No same-stop re-boarding: a group that alights from a bus at a stop-tick
/// is `Delivered` before boarding is evaluated, and boarding never touches
/// a delivered group — so the same bus cannot pick it up again at that
/// stop-tick.
pub proof fn lemma_alight_before_board(
    people: Seq<PeopleTransit>,
    bus_idx: usize,
    stop: usize,
    stops: Seq<usize>,
    next_stop: usize,
    g: int,
)
    requires
        0 <= g < people.len(),
        alights(people[g], bus_idx, stop),
    ensures
        board_all(alight_all(people, bus_idx, stop), bus_idx, stop, stops, next_stop)[g].state
            == GroupState::Delivered,
{
    let p1 = alight_all(people, bus_idx, stop);
    assert(p1[g] == alight_group(people[g], bus_idx, stop));
    assert(board_all(p1, bus_idx, stop, stops, next_stop)[g] == board_group(
        p1[g],
        bus_idx,
        stop,
        stops,
        next_stop,
    ));
}

/// Determinism: a run's event log and final state are functions of the
/// setup state and the tick count alone, so identical setup calls in
/// identical order and an identical tick count always produce identical
/// event logs.
pub proof fn lemma_deterministic_run(a: SimModel, b: SimModel, t: usize)
    requires
        a == b,
    ensures
        run_model(a, t).1 == run_model(b, t).1,
        run_model(a, t).0 == run_model(b, t).0,
{
}

} // verus!


