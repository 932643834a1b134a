//! Event records. Each bus that is at a stop in a tick produces exactly one
//! event, aggregating that bus's boarding and alighting at that stop only —
//! never merged with other buses stopping at the same city in the same tick.

use vstd::prelude::*;

verus! {

/// The record of one bus's activity at one stop in one tick: the city's
/// handle, the tick number, and how many passengers boarded and alighted.
#[derive(Clone, Copy, Debug, PartialEq, Eq, Structural)]
pub struct Event {
    pub city: usize,
    pub ticks: usize,
    pub on: u64,
    pub off: u64,
}

impl Event {
    /// The handle of the city the bus stopped at.
    pub fn city(&self) -> (r: usize)
        ensures
            r == self.city,
    {
        self.city
    }

    /// How many ticks had elapsed when the stop was served.
    pub fn ticks_elapsed(&self) -> (r: usize)
        ensures
            r == self.ticks,
    {
        self.ticks
    }

    /// How many passengers boarded this bus at this stop.
    pub fn got_on(&self) -> (r: u64)
        ensures
            r == self.on,
    {
        self.on
    }

    /// How many passengers alighted from this bus at this stop.
    pub fn got_off(&self) -> (r: u64)
        ensures
            r == self.off,
    {
        self.off
    }
}

/// A city name, as handed out when an event is resolved against the arena.
pub struct CityNameStruct {
    city: String,
}

impl View for CityNameStruct {
    type V = Seq<char>;

    closed spec fn view(&self) -> Seq<char> {
        self.city@
    }
}

impl CityNameStruct {
    /// Wraps a city name.
    pub fn new(city: String) -> (r: CityNameStruct)
        ensures
            r@ == city@,
    {
        CityNameStruct { city }
    }

    /// The city's name.
    pub fn name(&self) -> (r: String)
        ensures
            r@ == self@,
    {
        self.city.clone()
    }
}

/// The abstract value of a resolved stop event.
pub struct BusStopEventModel {
    pub city: Seq<char>,
    pub got_on: u64,
    pub got_off: u64,
}

/// A stop event resolved against the city arena: the city's name together
/// with the boarded and alighted counts.
pub struct BusStopEvent {
    city: String,
    got_on: u64,
    got_off: u64,
}

impl View for BusStopEvent {
    type V = BusStopEventModel;

    closed spec fn view(&self) -> BusStopEventModel {
        BusStopEventModel { city: self.city@, got_on: self.got_on, got_off: self.got_off }
    }
}

impl BusStopEvent {
    /// Builds a resolved stop event.
    pub fn new(city: String, got_on: u64, got_off: u64) -> (r: BusStopEvent)
        ensures
            r@ == (BusStopEventModel { city: city@, got_on, got_off }),
    {
        BusStopEvent { city, got_on, got_off }
    }

    /// The city the bus stopped at.
    pub fn city(&self) -> (r: CityNameStruct)
        ensures
            r@ == self@.city,
    {
        CityNameStruct::new(self.city.clone())
    }

    /// How many passengers alighted from the bus at this stop.
    pub fn got_off(&self) -> (r: u64)
        ensures
            r == self@.got_off,
    {
        self.got_off
    }

    /// How many passengers boarded the bus at this stop.
    pub fn got_on(&self) -> (r: u64)
        ensures
            r == self@.got_on,
    {
        self.got_on
    }
}

} // verus!
