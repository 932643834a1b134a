//! The setup surface: handle assignment, road lookups, and every
//! configuration error on an input that triggers it.

use public_transport::order_pair;
use public_transport::ConfigError;
use public_transport::Simulation;

#[test]
fn handles_are_dense_and_stable() {
    let mut sim = Simulation::new();
    assert_eq!(sim.new_city("A"), 0);
    assert_eq!(sim.new_city("B"), 1);
    assert_eq!(sim.new_city("C"), 2);
    assert_eq!(sim.new_road(0, 1, 4), Ok(0));
    assert_eq!(sim.new_road(1, 2, 6), Ok(1));
    assert_eq!(sim.new_bus(&vec![0, 1]), Ok(0));
    assert_eq!(sim.new_bus(&vec![1, 2]), Ok(1));
    assert_eq!(sim.add_people(0, 1, 3), 0);
    assert_eq!(sim.add_people(1, 2, 5), 1);
}

#[test]
fn road_to_unknown_city_is_rejected() {
    let mut sim = Simulation::new();
    let a = sim.new_city("A");
    assert_eq!(sim.new_road(a, a + 1, 3), Err(ConfigError::UnknownCity));
    assert_eq!(sim.new_road(a + 7, a, 3), Err(ConfigError::UnknownCity));
}

#[test]
fn zero_distance_road_is_rejected() {
    let mut sim = Simulation::new();
    let a = sim.new_city("A");
    let b = sim.new_city("B");
    assert_eq!(sim.new_road(a, b, 0), Err(ConfigError::InvalidDistance));
}

#[test]
fn duplicate_road_is_rejected_in_either_order() {
    let mut sim = Simulation::new();
    let a = sim.new_city("A");
    let b = sim.new_city("B");
    assert!(sim.new_road(a, b, 3).is_ok());
    assert_eq!(sim.new_road(a, b, 3), Err(ConfigError::DuplicateRoad));
    assert_eq!(sim.new_road(b, a, 9), Err(ConfigError::DuplicateRoad));
}

#[test]
fn distance_lookup_is_symmetric() {
    let mut sim = Simulation::new();
    let a = sim.new_city("A");
    let b = sim.new_city("B");
    let c = sim.new_city("C");
    sim.new_road(b, a, 5).unwrap();
    assert_eq!(sim.distance_between(a, b), Ok(5));
    assert_eq!(sim.distance_between(b, a), Ok(5));
    assert_eq!(sim.distance_between(a, c), Err(ConfigError::NoRoad));
    assert_eq!(sim.distance_between(a, a), Err(ConfigError::NoRoad));
}

#[test]
fn short_routes_are_rejected() {
    let mut sim = Simulation::new();
    let a = sim.new_city("A");
    assert_eq!(sim.new_bus(&vec![]), Err(ConfigError::RouteTooShort));
    assert_eq!(sim.new_bus(&vec![a]), Err(ConfigError::RouteTooShort));
}

#[test]
fn disconnected_routes_are_rejected() {
    let mut sim = Simulation::new();
    let a = sim.new_city("A");
    let b = sim.new_city("B");
    let c = sim.new_city("C");
    sim.new_road(a, b, 2).unwrap();
    assert_eq!(
        sim.new_bus(&vec![a, c]),
        Err(ConfigError::NoRoadBetweenStops)
    );
    assert_eq!(
        sim.new_bus(&vec![a, b, c]),
        Err(ConfigError::NoRoadBetweenStops)
    );
    // A route through an unknown handle has no road to it either.
    assert_eq!(
        sim.new_bus(&vec![a, c + 10]),
        Err(ConfigError::NoRoadBetweenStops)
    );
}

#[test]
fn failed_setup_call_leaves_earlier_setup_valid() {
    let mut sim = Simulation::new();
    let a = sim.new_city("A");
    let b = sim.new_city("B");
    assert!(sim.new_road(a, b, 0).is_err());
    assert_eq!(sim.new_road(a, b, 2), Ok(0));
    assert!(sim.new_bus(&vec![a, b, a, b]).is_ok());
    let events = sim.execute(6);
    assert_eq!(events.len(), 4);
}

#[test]
fn order_pair_puts_the_smaller_handle_first() {
    assert_eq!(order_pair(5, 2), (2, 5));
    assert_eq!(order_pair(2, 5), (2, 5));
    assert_eq!(order_pair(3, 3), (3, 3));
}
