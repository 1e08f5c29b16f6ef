//! The lists of drones, incidents and cameras the monitor's interface shows,
//! kept up to date with what the monitor reports.

use vstd::prelude::*;

use crate::incident::Incident;
use crate::monitor::camera::Camera;
use crate::monitor::drone::Drone;

verus! {

/// `new` is `old` with `item` in place of the first element with the same
/// key, or with `item` added at the end when no element has its key.
pub open spec fn spec_upserted<T>(old: Seq<T>, new: Seq<T>, item: T, key: spec_fn(T) -> Seq<char>) -> bool {
    ||| exists|i: int|
        0 <= i < old.len() && key(old[i]) == key(item)
            && (forall|j: int| 0 <= j < i ==> key(#[trigger] old[j]) != key(item))
            && new == old.update(i, item)
    ||| (forall|j: int| 0 <= j < old.len() ==> key(#[trigger] old[j]) != key(item)) && new == old.push(item)
}

/// Replaces the drone with the same identifier, or adds the drone.
pub fn update_drones(drones: &mut Vec<Drone>, drone: Drone)
    ensures
        spec_upserted(old(drones)@, final(drones)@, drone, |d: Drone| d.id@),
{
    let mut i: usize = 0;
    while i < drones.len()
        invariant
            drones@ == old(drones)@,
            i <= drones@.len(),
            forall|j: int| 0 <= j < i ==> drones@[j].id@ != drone.id@,
        decreases drones.len() - i,
    {
        if drones[i].id == drone.id {
            let ghost before = drones@;
            drones.set(i, drone);
            assert(before[i as int].id@ == drone.id@);
            return;
        }
        i = i + 1;
    }
    drones.push(drone);
}

/// Replaces the incident with the same identifier, or adds the incident.
pub fn update_incidents(incidents: &mut Vec<Incident>, incident: Incident)
    ensures
        spec_upserted(old(incidents)@, final(incidents)@, incident, |i: Incident| i.uuid@),
{
    let mut i: usize = 0;
    while i < incidents.len()
        invariant
            incidents@ == old(incidents)@,
            i <= incidents@.len(),
            forall|j: int| 0 <= j < i ==> incidents@[j].uuid@ != incident.uuid@,
        decreases incidents.len() - i,
    {
        if incidents[i].uuid == incident.uuid {
            let ghost before = incidents@;
            incidents.set(i, incident);
            assert(before[i as int].uuid@ == incident.uuid@);
            return;
        }
        i = i + 1;
    }
    incidents.push(incident);
}

/// Replaces the camera with the same identifier, or adds the camera.
pub fn update_cameras(cameras: &mut Vec<Camera>, camera: Camera)
    ensures
        spec_upserted(old(cameras)@, final(cameras)@, camera, |c: Camera| c.id@),
{
    let mut i: usize = 0;
    while i < cameras.len()
        invariant
            cameras@ == old(cameras)@,
            i <= cameras@.len(),
            forall|j: int| 0 <= j < i ==> cameras@[j].id@ != camera.id@,
        decreases cameras.len() - i,
    {
        if cameras[i].id == camera.id {
            let ghost before = cameras@;
            cameras.set(i, camera);
            assert(before[i as int].id@ == camera.id@);
            return;
        }
        i = i + 1;
    }
    cameras.push(camera);
}

} // verus!
