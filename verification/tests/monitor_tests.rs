use sauron::incident::{Incident, IncidentStatus};
use sauron::monitor::Monitor;

fn incident1() -> Incident {
    Incident::new(
        "incident1".to_string(),
        "incident1".to_string(),
        "incident1".to_string(),
        1.0f64.to_bits(),
        1.0f64.to_bits(),
        IncidentStatus::Pending,
    )
}

#[test]
fn test_attending_incident_once() {
    let mut monitor = Monitor::new();
    let incident = incident1();

    monitor.new_incident(incident.clone());
    assert_eq!(monitor.get_incident(&incident.uuid).unwrap(), &incident);

    let incident = monitor.attend_incident(incident.uuid).unwrap();

    assert_eq!(incident.status, IncidentStatus::Pending);
}

#[test]
fn test_attending_incident_twice() {
    let mut monitor = Monitor::new();
    let incident = incident1();

    monitor.new_incident(incident.clone());
    assert_eq!(monitor.get_incident(&incident.uuid).unwrap(), &incident);

    let incident = monitor.attend_incident(incident.uuid).unwrap();
    let incident = monitor.attend_incident(incident.uuid).unwrap();

    assert_eq!(incident.status, IncidentStatus::InProgress);
}

#[test]
fn test_resolvable_incident() {
    let mut monitor = Monitor::new();
    let incident = incident1();

    monitor.new_incident(incident.clone());
    assert_eq!(monitor.get_incident(&incident.uuid).unwrap(), &incident);

    monitor.set_resolvable_incident(incident.uuid.clone());
    let incident = monitor.get_incident(&incident.uuid).unwrap();
    assert_eq!(incident.status, IncidentStatus::Resolvable);
}

#[test]
fn test_solve_incident() {
    let mut monitor = Monitor::new();
    let incident = incident1();

    monitor.new_incident(incident.clone());
    assert_eq!(monitor.get_incident(&incident.uuid).unwrap(), &incident);

    monitor.set_resolved_incident(incident.uuid.clone());
    let incident = monitor.get_incident(&incident.uuid).unwrap();
    assert_eq!(incident.status, IncidentStatus::Resolved);
}

#[test]
fn test_edit_incident() {
    let mut monitor = Monitor::new();
    let incident = incident1();

    monitor.new_incident(incident.clone());
    assert_eq!(monitor.get_incident(&incident.uuid).unwrap(), &incident);

    let incident = monitor
        .edit_incident(incident.uuid, "incident1 edit".to_string(), "incident1 edit".to_string())
        .unwrap();
    assert_eq!(incident.name, "incident1 edit");
    assert_eq!(incident.description, "incident1 edit");
}

#[test]
fn attending_an_unknown_incident_gives_nothing() {
    let mut monitor = Monitor::new();
    assert!(monitor.attend_incident("missing".to_string()).is_none());
    assert!(monitor.get_incident(&"missing".to_string()).is_none());
}

#[test]
fn attending_a_handled_incident_gives_nothing() {
    let mut monitor = Monitor::new();
    let incident = incident1();
    monitor.new_incident(incident.clone());
    monitor.attend_incident(incident.uuid.clone());
    monitor.attend_incident(incident.uuid.clone());
    assert!(monitor.attend_incident(incident.uuid.clone()).is_none());
    assert_eq!(
        monitor.get_incident(&incident.uuid).unwrap().status,
        IncidentStatus::InProgress
    );
}

#[test]
fn attending_a_resolved_incident_keeps_it_resolved() {
    let mut monitor = Monitor::new();
    let incident = incident1();
    monitor.new_incident(incident.clone());
    monitor.set_resolved_incident(incident.uuid.clone());
    let after = monitor.attend_incident(incident.uuid.clone()).unwrap();
    assert_eq!(after.status, IncidentStatus::Resolved);
}

#[test]
fn editing_keeps_place_and_status() {
    let mut monitor = Monitor::new();
    let incident = incident1();
    monitor.new_incident(incident.clone());
    monitor.attend_incident(incident.uuid.clone());
    monitor.attend_incident(incident.uuid.clone());
    let edited = monitor
        .edit_incident(incident.uuid.clone(), "n".to_string(), "d".to_string())
        .unwrap();
    assert_eq!(edited.status, IncidentStatus::InProgress);
    assert_eq!(edited.x_coordinate, 1.0f64.to_bits());
    assert_eq!(edited.uuid, "incident1");
    assert!(monitor
        .edit_incident("other".to_string(), "n".to_string(), "d".to_string())
        .is_none());
}

#[test]
fn registering_again_replaces_the_incident() {
    let mut monitor = Monitor::new();
    let incident = incident1();
    monitor.new_incident(incident.clone());
    monitor.set_resolvable_incident(incident.uuid.clone());
    monitor.new_incident(incident.clone());
    assert_eq!(
        monitor.get_incident(&incident.uuid).unwrap().status,
        IncidentStatus::Pending
    );
}

fn incident2() -> Incident {
    Incident::new(
        "incident2".to_string(),
        "incident2".to_string(),
        "incident2".to_string(),
        2.0f64.to_bits(),
        2.0f64.to_bits(),
        IncidentStatus::Pending,
    )
}

#[test]
fn attending_counts_two_drones_whatever_happens_elsewhere() {
    let mut monitor = Monitor::new();
    monitor.new_incident(incident1());
    monitor.new_incident(incident2());
    let first = monitor.attend_incident("incident1".to_string()).unwrap();
    assert_eq!(first, incident1());
    assert!(monitor.attend_incident("incident2".to_string()).is_some());
    let second = monitor.attend_incident("incident1".to_string()).unwrap();
    assert_eq!(second.status, IncidentStatus::InProgress);
    assert_eq!(second.name, "incident1");
    assert!(monitor.attend_incident("incident1".to_string()).is_none());
    assert!(monitor.attend_incident("incident1".to_string()).is_none());
    assert_eq!(monitor.get_incident(&"incident1".to_string()).unwrap().status, IncidentStatus::InProgress);
    assert!(monitor.attend_incident("never".to_string()).is_none());
    assert!(monitor.get_incident(&"never".to_string()).is_none());
}
