//! A deterministic, tick-based transit simulation: cities connected by
//! weighted roads, buses that follow pre-validated routes, and passenger
//! groups that board and alight as whole units. The tick engine is the sole
//! mutator; every run is a pure function of the setup calls, and the event
//! log it returns is pinned down by the specification in `sim`.

pub mod bus;
pub mod events;
pub mod laws;
pub mod network;
pub mod people;
pub mod sim;

pub use bus::Bus;
pub use events::{BusStopEvent, CityNameStruct, Event};
pub use network::{order_pair, ConfigError, Road, Vertex};
pub use people::{GroupState, People, PeopleTransit};
pub use sim::Simulation;
