//! End-to-end runs of the tick engine: the two reference scenarios, the
//! zero-tick boundary, event ordering, and the behavioral laws on
//! concrete setups.

use public_transport::Event;
use public_transport::GroupState;
use public_transport::Simulation;

fn event(city: usize, ticks: usize, on: u64, off: u64) -> Event {
    Event { city, ticks, on, off }
}

#[test]
fn scenario_two_cities() {
    let mut sim = Simulation::new();
    let a = sim.new_city("A");
    let b = sim.new_city("B");
    sim.new_road(a, b, 5).unwrap();
    let bus = sim.new_bus(&vec![a, b]).unwrap();
    let group = sim.add_people(a, b, 10);

    let events = sim.execute(5);

    assert_eq!(events, vec![event(a, 0, 10, 0), event(b, 5, 0, 10)]);
    assert_eq!(sim.bus_is_finished(bus), Some(true));
    assert_eq!(sim.group_state(group), Some(GroupState::Delivered));
}

#[test]
fn scenario_three_cities() {
    let mut sim = Simulation::new();
    let prague = sim.new_city("Prague");
    let brno = sim.new_city("Brno");
    let bratislava = sim.new_city("Bratislava");
    sim.new_road(prague, brno, 10).unwrap();
    sim.new_road(brno, bratislava, 10).unwrap();
    sim.new_bus(&vec![prague, brno, bratislava]).unwrap();
    sim.add_people(prague, brno, 50);
    sim.add_people(prague, bratislava, 30);

    let events = sim.execute(20);

    assert_eq!(
        events,
        vec![
            event(prague, 0, 80, 0),
            event(brno, 10, 0, 50),
            event(bratislava, 20, 0, 30),
        ]
    );
    let described = sim.describe(&events[0]).unwrap();
    assert_eq!(described.city().name(), "Prague");
    assert_eq!(described.got_on(), 80);
    assert_eq!(described.got_off(), 0);
    assert_eq!(sim.describe(&events[2]).unwrap().city().name(), "Bratislava");
}

#[test]
fn run_zero_yields_nothing() {
    let mut sim = Simulation::new();
    let a = sim.new_city("A");
    let b = sim.new_city("B");
    sim.new_road(a, b, 5).unwrap();
    sim.new_bus(&vec![a, b]).unwrap();
    let group = sim.add_people(a, b, 10);

    let events = sim.execute(0);

    assert!(events.is_empty());
    assert!(sim.has_run());
    assert_eq!(sim.group_state(group), Some(GroupState::Waiting));
}

#[test]
fn run_one_tick_reports_origin_boarding() {
    let mut sim = Simulation::new();
    let a = sim.new_city("A");
    let b = sim.new_city("B");
    sim.new_road(a, b, 5).unwrap();
    let bus = sim.new_bus(&vec![a, b]).unwrap();
    let group = sim.add_people(a, b, 10);

    let events = sim.execute(1);

    assert_eq!(events, vec![event(a, 0, 10, 0)]);
    assert_eq!(sim.group_state(group), Some(GroupState::Onboard(bus)));
    assert_eq!(sim.bus_is_finished(bus), Some(false));
}

#[test]
fn stop_reported_without_activity() {
    let mut sim = Simulation::new();
    let a = sim.new_city("A");
    let b = sim.new_city("B");
    sim.new_road(a, b, 3).unwrap();
    sim.new_bus(&vec![a, b]).unwrap();

    let events = sim.execute(3);

    assert_eq!(events, vec![event(a, 0, 0, 0), event(b, 3, 0, 0)]);
}

#[test]
fn alight_resolves_before_boarding_at_same_stop() {
    let mut sim = Simulation::new();
    let a = sim.new_city("A");
    let b = sim.new_city("B");
    let c = sim.new_city("C");
    sim.new_road(a, b, 2).unwrap();
    sim.new_road(b, c, 2).unwrap();
    sim.new_bus(&vec![a, b, c]).unwrap();
    let g0 = sim.add_people(a, b, 5);
    let g1 = sim.add_people(b, c, 7);

    let events = sim.execute(4);

    assert_eq!(
        events,
        vec![event(a, 0, 5, 0), event(b, 2, 7, 5), event(c, 4, 0, 7)]
    );
    assert_eq!(sim.group_state(g0), Some(GroupState::Delivered));
    assert_eq!(sim.group_state(g1), Some(GroupState::Delivered));
}

#[test]
fn delivered_group_never_reboards() {
    let mut sim = Simulation::new();
    let a = sim.new_city("A");
    let b = sim.new_city("B");
    sim.new_road(a, b, 2).unwrap();
    // The route returns to its origin over the same road.
    let bus = sim.new_bus(&vec![a, b, a]).unwrap();
    let g0 = sim.add_people(a, b, 4);
    let g1 = sim.add_people(b, a, 3);

    let events = sim.execute(4);

    // At B the first group alights and stays delivered; only the second
    // group boards there, in the same tick.
    assert_eq!(
        events,
        vec![event(a, 0, 4, 0), event(b, 2, 3, 4), event(a, 4, 0, 3)]
    );
    assert_eq!(sim.group_state(g0), Some(GroupState::Delivered));
    assert_eq!(sim.group_state(g1), Some(GroupState::Delivered));
    assert_eq!(sim.bus_is_finished(bus), Some(true));
}

#[test]
fn group_without_eligible_bus_waits_forever() {
    let mut sim = Simulation::new();
    let a = sim.new_city("A");
    let b = sim.new_city("B");
    let c = sim.new_city("C");
    sim.new_road(a, b, 1).unwrap();
    sim.new_bus(&vec![a, b]).unwrap();
    // The destination is never on the bus's route.
    let stranded = sim.add_people(a, c, 9);

    let events = sim.execute(6);

    assert_eq!(events, vec![event(a, 0, 0, 0), event(b, 1, 0, 0)]);
    assert_eq!(sim.group_state(stranded), Some(GroupState::Waiting));
}

fn reference_setup() -> Simulation {
    let mut sim = Simulation::new();
    let prague = sim.new_city("Prague");
    let brno = sim.new_city("Brno");
    let bratislava = sim.new_city("Bratislava");
    sim.new_road(prague, brno, 10).unwrap();
    sim.new_road(brno, bratislava, 10).unwrap();
    sim.new_road(bratislava, prague, 35).unwrap();
    sim.new_bus(&vec![prague, brno, bratislava]).unwrap();
    sim.add_people(prague, brno, 50);
    sim.add_people(prague, bratislava, 30);
    sim
}

#[test]
fn identical_setups_give_identical_logs() {
    let mut first = reference_setup();
    let mut second = reference_setup();

    let log_a = first.execute(50);
    let log_b = second.execute(50);

    assert_eq!(log_a, log_b);
    assert!(!log_a.is_empty());
}

#[test]
fn buses_are_processed_in_creation_order() {
    let mut sim = Simulation::new();
    let a = sim.new_city("A");
    let b = sim.new_city("B");
    sim.new_road(a, b, 1).unwrap();
    sim.new_bus(&vec![a, b]).unwrap();
    sim.new_bus(&vec![a, b]).unwrap();
    let group = sim.add_people(a, b, 10);

    let events = sim.execute(1);

    // The earlier bus considers the group first and takes all of it; both
    // buses still report each of their stops.
    assert_eq!(
        events,
        vec![
            event(a, 0, 10, 0),
            event(a, 0, 0, 0),
            event(b, 1, 0, 10),
            event(b, 1, 0, 0),
        ]
    );
    assert_eq!(sim.group_state(group), Some(GroupState::Delivered));
}

#[test]
fn ineligible_group_waits_for_a_later_bus() {
    let mut sim = Simulation::new();
    let a = sim.new_city("A");
    let b = sim.new_city("B");
    let c = sim.new_city("C");
    sim.new_road(a, b, 1).unwrap();
    sim.new_road(a, c, 2).unwrap();
    sim.new_bus(&vec![a, b]).unwrap();
    let direct = sim.new_bus(&vec![a, c]).unwrap();
    let group = sim.add_people(a, c, 10);

    let events = sim.execute(2);

    assert_eq!(
        events,
        vec![
            event(a, 0, 0, 0),
            event(a, 0, 10, 0),
            event(b, 1, 0, 0),
            event(c, 2, 0, 10),
        ]
    );
    assert_eq!(sim.group_state(group), Some(GroupState::Delivered));
    assert_eq!(sim.bus_is_finished(direct), Some(true));
}

#[test]
fn group_bound_for_its_own_origin_boards() {
    let mut sim = Simulation::new();
    let a = sim.new_city("A");
    let b = sim.new_city("B");
    sim.new_road(a, b, 1).unwrap();
    let bus = sim.new_bus(&vec![a, b]).unwrap();
    // The current stop counts among the stops the bus will still visit, so
    // a group whose destination is its own origin boards the first bus
    // that calls there; the route never returns, so it is never delivered.
    let group = sim.add_people(a, a, 6);

    let events = sim.execute(1);

    assert_eq!(events, vec![event(a, 0, 6, 0), event(b, 1, 0, 0)]);
    assert_eq!(sim.group_state(group), Some(GroupState::Onboard(bus)));
}

#[test]
fn huge_groups_aggregate_without_overflow() {
    let mut sim = Simulation::new();
    let a = sim.new_city("A");
    let b = sim.new_city("B");
    sim.new_road(a, b, 1).unwrap();
    sim.new_bus(&vec![a, b]).unwrap();
    sim.add_people(a, b, u32::MAX);
    sim.add_people(a, b, u32::MAX);
    sim.add_people(a, b, u32::MAX);

    let events = sim.execute(1);

    let total = 3 * (u32::MAX as u64);
    assert_eq!(events, vec![event(a, 0, total, 0), event(b, 1, 0, total)]);
}

#[test]
fn describe_rejects_unknown_city_handles() {
    let mut sim = Simulation::new();
    let a = sim.new_city("A");
    let made_up = Event { city: a + 99, ticks: 0, on: 0, off: 0 };
    assert!(sim.describe(&made_up).is_none());
    assert!(!sim.has_run());
    let events = sim.execute(3);
    assert!(events.is_empty());
    assert!(sim.has_run());
}
