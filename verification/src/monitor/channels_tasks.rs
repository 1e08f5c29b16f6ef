//! The messages the monitor and its interface exchange.

use vstd::prelude::*;

use crate::incident::Incident;
use crate::monitor::camera::Camera;
use crate::monitor::drone::Drone;

verus! {

/// What the interface asks of the monitor.
pub enum UIAction {
    RegistrateDrone(DroneRegistration),
    RegistrateIncident(IncidentRegistration),
    ResolveIncident(Incident),
}

/// The credentials of a drone to register.
#[derive(Debug, Clone)]
pub struct DroneRegistration {
    pub id: String,
    pub username: String,
    pub password: String,
}

impl DroneRegistration {
    /// The registration record: identifier, user name and password, `;`
    /// between them.
    pub fn build_drone_message(&self) -> (message: String)
        ensures
            message@ == self.id@ + seq![';'] + self.username@ + seq![';'] + self.password@,
    {
        proof { reveal_strlit(";"); }
        let mut message = self.id.clone();
        message.append(";");
        message.append(self.username.as_str());
        message.append(";");
        message.append(self.password.as_str());
        message
    }
}

/// An incident as typed in the interface, before it is registered.
#[derive(Debug, Clone)]
pub struct IncidentRegistration {
    pub name: String,
    pub description: String,
    pub x: String,
    pub y: String,
}

/// What the monitor tells the interface.
pub enum MonitorAction {
    Drone(Drone),
    Camera(Camera),
    Incident(Incident),
}

} // verus!
