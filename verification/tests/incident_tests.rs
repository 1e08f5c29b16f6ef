use sauron::error::Error;
use sauron::incident::{parse_incident_fields, Incident, IncidentStatus};
use sauron::monitor::channels_tasks::DroneRegistration;

#[test]
fn status_codes_round_trip() {
    for status in [
        IncidentStatus::Pending,
        IncidentStatus::InProgress,
        IncidentStatus::Resolvable,
        IncidentStatus::Resolved,
    ] {
        assert_eq!(IncidentStatus::from_string(status.to_string()), status);
    }
    assert_eq!(IncidentStatus::Resolvable.to_string(), "2");
}

#[test]
fn status_meanings() {
    assert_eq!(IncidentStatus::Pending.meaning(), "Pending");
    assert_eq!(IncidentStatus::InProgress.meaning(), "In Progress");
    assert_eq!(IncidentStatus::Resolvable.meaning(), "Resolvable");
    assert_eq!(IncidentStatus::Resolved.meaning(), "Resolved");
}

#[test]
fn incident_record_fields() {
    let fields = parse_incident_fields(&"id;fire;big fire;1.5;2.5;0".to_string()).unwrap();
    assert_eq!(fields, vec!["id", "fire", "big fire", "1.5", "2.5", "0"]);
    let fields = parse_incident_fields(&";;;;;".to_string()).unwrap();
    assert_eq!(fields, vec![""; 6]);
}

#[test]
fn incident_record_with_wrong_field_count() {
    assert!(matches!(
        parse_incident_fields(&"id;fire;1.5;2.5;0".to_string()),
        Err(Error::InvalidIncident)
    ));
    assert!(matches!(
        parse_incident_fields(&"a;b;c;d;e;f;g".to_string()),
        Err(Error::InvalidIncident)
    ));
    assert!(matches!(parse_incident_fields(&String::new()), Err(Error::InvalidIncident)));
}

#[test]
fn copying_an_incident_keeps_every_field() {
    let i = Incident::new(
        "u".to_string(),
        "n".to_string(),
        "d".to_string(),
        3,
        4,
        IncidentStatus::InProgress,
    );
    assert_eq!(i.copy(), i);
}

#[test]
fn drone_registration_message() {
    let r = DroneRegistration {
        id: "7".to_string(),
        username: "user".to_string(),
        password: "pw".to_string(),
    };
    assert_eq!(r.build_drone_message(), "7;user;pw");
}
