//! The monitor's picture of a drone, built from the drone's data.

use vstd::prelude::*;

use crate::incident::Incident;

verus! {

/// A drone as the monitor knows it. Its coordinates are the bit patterns of
/// their IEEE-754 double-precision values.
#[derive(Debug, Clone)]
pub struct Drone {
    pub id: String,
    pub state: String,
    pub battery: usize,
    pub x_coordinate: u64,
    pub y_coordinate: u64,
    pub incident: Option<Incident>,
}

impl Drone {
    /// A drone from its data, attending no incident.
    pub fn new(id: String, state: String, battery: usize, x_coordinate: u64, y_coordinate: u64) -> (d: Drone)
        ensures
            d.id@ == id@,
            d.state@ == state@,
            d.battery == battery,
            d.x_coordinate == x_coordinate,
            d.y_coordinate == y_coordinate,
            d.incident is None,
    {
        Drone { id, state, battery, x_coordinate, y_coordinate, incident: None }
    }
}

} // verus!
