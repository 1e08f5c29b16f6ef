use sauron::incident::{Incident, IncidentStatus};
use sauron::monitor::camera::{Camera, CameraStatus};
use sauron::monitor::drone::Drone;
use sauron::monitor::ui_application::{update_cameras, update_drones, update_incidents};
use sauron::text::{join_text, split_text};

#[test]
fn join_then_split_gives_the_parts_back() {
    let parts = vec!["0;1;2;1".to_string(), "".to_string(), "1;3;4;0".to_string()];
    let joined = join_text(&parts, "|");
    assert_eq!(joined, "0;1;2;1||1;3;4;0");
    assert_eq!(split_text(&joined, '|'), parts);
    assert_eq!(join_text(&vec![], ";"), "");
    assert_eq!(join_text(&vec!["a".to_string()], ";"), "a");
}

#[test]
fn drone_list_replaces_or_adds() {
    let mut drones = vec![];
    update_drones(&mut drones, Drone::new("1".to_string(), "0".to_string(), 50, 0, 0));
    update_drones(&mut drones, Drone::new("2".to_string(), "0".to_string(), 60, 0, 0));
    update_drones(&mut drones, Drone::new("1".to_string(), "2".to_string(), 40, 1, 1));
    assert_eq!(drones.len(), 2);
    assert_eq!(drones[0].id, "1");
    assert_eq!(drones[0].battery, 40);
    assert_eq!(drones[1].id, "2");
}

#[test]
fn incident_list_replaces_or_adds() {
    let mut incidents = vec![];
    let a = Incident::new("a".to_string(), "n".to_string(), "d".to_string(), 0, 0, IncidentStatus::Pending);
    let b = Incident::new("b".to_string(), "n".to_string(), "d".to_string(), 0, 0, IncidentStatus::Pending);
    let a2 = Incident::new("a".to_string(), "n".to_string(), "d".to_string(), 0, 0, IncidentStatus::Resolved);
    update_incidents(&mut incidents, a);
    update_incidents(&mut incidents, b);
    update_incidents(&mut incidents, a2.clone());
    assert_eq!(incidents.len(), 2);
    assert_eq!(incidents[0], a2);
}

#[test]
fn camera_list_replaces_or_adds() {
    let mut cameras = vec![];
    update_cameras(&mut cameras, Camera::new("c".to_string(), 0, 0, "0".to_string()));
    update_cameras(&mut cameras, Camera::new("c".to_string(), 0, 0, "1".to_string()));
    assert_eq!(cameras.len(), 1);
    assert_eq!(cameras[0].status, CameraStatus::Active);
}
