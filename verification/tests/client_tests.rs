use sauron::camera_system::client::{camera_data_publish, classify_camera_system_topic, CameraSystemTopic};
use sauron::drone::client::{
    attending_incident_topic, classify_drone_topic, decimal_bytes, drone_data_topic,
    publish_packet, ready_incident_topic, DroneTopic,
};
use sauron::incident::{Incident, IncidentStatus};
use sauron::monitor::channels_tasks::{DroneRegistration, IncidentRegistration};
use sauron::monitor::client::{
    new_incident_publish, register_drone, resolve_incident, IncomingPublish, MonitorClient, OperatorRequest,
};
use sauron::mqtt::packets::puback::Puback;
use sauron::mqtt::packets::publish::Publish;
use sauron::mqtt::qos::QoS;
use sauron::mqtt::topic_name::TopicName;

fn topic(levels: &[&[u8]]) -> TopicName {
    TopicName::new(levels.iter().map(|l| l.to_vec()).collect(), false)
}

fn incoming(levels: &[&[u8]], qos: QoS, id: Option<u16>) -> Publish {
    Publish::new(false, qos, false, topic(levels), id, vec![])
}

fn registration(name: &str) -> IncidentRegistration {
    IncidentRegistration {
        name: name.to_string(),
        description: "d".to_string(),
        x: "1".to_string(),
        y: "2".to_string(),
    }
}

#[test]
fn register_drone_publishes_the_credentials() {
    let r = DroneRegistration {
        id: "7".to_string(),
        username: "u".to_string(),
        password: "p".to_string(),
    };
    let p = register_drone(r, 4).unwrap();
    assert_eq!(p.topic().levels(), &vec![b"$drone-register".to_vec()]);
    assert!(p.topic().server_reserved());
    assert_eq!(p.message(), &b"7;u;p".to_vec());
    assert_eq!(p.qos(), &QoS::AtLeast);
    assert_eq!(p.package_identifier(), Some(4));
}

#[test]
fn resolve_incident_publishes_on_close_incident() {
    let i = Incident::new("abc".to_string(), "n".to_string(), "d".to_string(), 0, 0, IncidentStatus::Resolvable);
    let p = resolve_incident(i, 9).unwrap();
    assert_eq!(p.topic().levels(), &vec![b"close-incident".to_vec(), b"abc".to_vec()]);
    assert!(p.message().is_empty());
    assert_eq!(p.package_identifier(), Some(9));
}

#[test]
fn new_incident_publish_carries_the_record() {
    let p = new_incident_publish(b"a;b;c;1;2;0".to_vec(), 3);
    assert_eq!(p.topic().levels(), &vec![b"new-incident".to_vec()]);
    assert_eq!(p.message(), &b"a;b;c;1;2;0".to_vec());
    assert_eq!(p.qos(), &QoS::AtLeast);
    assert_eq!(p.package_identifier(), Some(3));
}

#[test]
fn monitor_client_counts_drones_at_an_incident() {
    let mut client = MonitorClient::new();
    let incident = client.register_incident(&registration("fire"), 5, 6);
    assert_eq!(incident.uuid, "fire");
    assert_eq!(incident.status, IncidentStatus::Pending);
    assert_eq!(incident.x_coordinate, 5);

    let (what, reply) = client.handle_publish(&incoming(&[b"attending-incident", b"fire"], QoS::AtLeast, Some(11)));
    match what {
        IncomingPublish::IncidentChanged(i) => assert_eq!(i.status, IncidentStatus::Pending),
        other => panic!("unexpected {:?}", other),
    }
    assert_eq!(reply.unwrap().packet_identifier(), Some(11));

    let (what, reply) = client.handle_publish(&incoming(&[b"attending-incident", b"fire"], QoS::AtMost, None));
    match what {
        IncomingPublish::IncidentChanged(i) => assert_eq!(i.status, IncidentStatus::InProgress),
        other => panic!("unexpected {:?}", other),
    }
    assert!(reply.is_none());

    let (what, _) = client.handle_publish(&incoming(&[b"attending-incident", b"fire"], QoS::AtMost, None));
    assert!(matches!(what, IncomingPublish::UnknownIncident));
}

#[test]
fn monitor_client_marks_ready_incidents_resolvable() {
    let mut client = MonitorClient::new();
    client.register_incident(&registration("flood"), 0, 0);
    let (what, _) = client.handle_publish(&incoming(&[b"ready-incident", b"flood"], QoS::AtLeast, Some(1)));
    match what {
        IncomingPublish::IncidentChanged(i) => assert_eq!(i.status, IncidentStatus::Resolvable),
        other => panic!("unexpected {:?}", other),
    }
    let (what, _) = client.handle_publish(&incoming(&[b"ready-incident", b"other"], QoS::AtLeast, Some(1)));
    assert!(matches!(what, IncomingPublish::UnknownIncident));
    assert_eq!(
        client.monitor().get_incident(&"flood".to_string()).unwrap().status,
        IncidentStatus::Resolvable
    );
}

#[test]
fn monitor_client_reads_data_topics() {
    let mut client = MonitorClient::new();
    let (what, _) = client.handle_publish(&incoming(&[b"drone-data", b"42"], QoS::AtMost, None));
    match what {
        IncomingPublish::DroneData(id) => assert_eq!(id, "42"),
        other => panic!("unexpected {:?}", other),
    }
    let (what, _) = client.handle_publish(&incoming(&[b"drone-data", &[0xFF, b'a']], QoS::AtMost, None));
    match what {
        IncomingPublish::DroneData(id) => assert_eq!(id, "\u{FFFD}a"),
        other => panic!("unexpected {:?}", other),
    }
    let (what, _) = client.handle_publish(&incoming(&[b"camera-data"], QoS::AtMost, None));
    assert!(matches!(what, IncomingPublish::CameraData));
    let (what, _) = client.handle_publish(&incoming(&[b"camera-update"], QoS::AtLeast, Some(2)));
    assert!(matches!(what, IncomingPublish::UnknownTopic));
}

#[test]
fn monitor_client_tracks_unacknowledged_publishes() {
    let mut client = MonitorClient::new();
    let p = new_incident_publish(vec![], client.publish_counter());
    client.record_sent(p, true);
    assert_eq!(client.publish_counter(), 1);
    assert!(client.is_unacknowledged(Some(0)));

    let p = new_incident_publish(vec![], client.publish_counter());
    client.record_sent(p, false);
    assert_eq!(client.publish_counter(), 2);
    assert!(!client.is_unacknowledged(Some(1)));

    assert!(client.handle_puback(&Puback::new(Some(0))));
    assert!(!client.is_unacknowledged(Some(0)));
    assert!(!client.handle_puback(&Puback::new(Some(0))));
}

#[test]
fn decimal_bytes_of_bytes() {
    assert_eq!(decimal_bytes(0), b"0".to_vec());
    assert_eq!(decimal_bytes(7), b"7".to_vec());
    assert_eq!(decimal_bytes(42), b"42".to_vec());
    assert_eq!(decimal_bytes(100), b"100".to_vec());
    assert_eq!(decimal_bytes(255), b"255".to_vec());
}

#[test]
fn drone_topics() {
    assert_eq!(drone_data_topic(12).levels(), &vec![b"drone-data".to_vec(), b"12".to_vec()]);
    assert_eq!(
        attending_incident_topic(&"u1".to_string()).levels(),
        &vec![b"attending-incident".to_vec(), b"u1".to_vec()]
    );
    assert_eq!(
        ready_incident_topic(&"u1".to_string()).levels(),
        &vec![b"ready-incident".to_vec(), b"u1".to_vec()]
    );
}

#[test]
fn drone_topic_classification() {
    assert!(matches!(classify_drone_topic(&topic(&[b"new-incident"])), DroneTopic::NewIncident));
    match classify_drone_topic(&topic(&[b"attending-incident", b"u"])) {
        DroneTopic::AttendingIncident(u) => assert_eq!(u, "u"),
        other => panic!("unexpected {:?}", other),
    }
    match classify_drone_topic(&topic(&[b"ready-incident", b"u"])) {
        DroneTopic::ReadyIncident(u) => assert_eq!(u, "u"),
        other => panic!("unexpected {:?}", other),
    }
    match classify_drone_topic(&topic(&[b"close-incident", b"u"])) {
        DroneTopic::CloseIncident(u) => assert_eq!(u, "u"),
        other => panic!("unexpected {:?}", other),
    }
    assert!(matches!(classify_drone_topic(&topic(&[b"close-incident", &[0xFF]])), DroneTopic::Ignored));
    assert!(matches!(classify_drone_topic(&topic(&[b"close-incident"])), DroneTopic::Ignored));
    assert!(matches!(classify_drone_topic(&topic(&[b"new-incident", b"x"])), DroneTopic::Ignored));
    assert!(matches!(classify_drone_topic(&topic(&[b"other", b"x"])), DroneTopic::Ignored));
}

#[test]
fn drone_publish_identifiers() {
    let p = publish_packet(topic(&[b"t"]), vec![1], QoS::AtLeast);
    assert_eq!(p.package_identifier(), Some(1));
    let p = publish_packet(topic(&[b"t"]), vec![1], QoS::AtMost);
    assert_eq!(p.package_identifier(), None);
    assert_eq!(p.message(), &vec![1]);
}

#[test]
fn camera_system_topic_classification() {
    assert!(matches!(classify_camera_system_topic(&topic(&[b"new-incident"])), CameraSystemTopic::NewIncident));
    match classify_camera_system_topic(&topic(&[b"close-incident", b"z"])) {
        CameraSystemTopic::CloseIncident(u) => assert_eq!(u, "z"),
        other => panic!("unexpected {:?}", other),
    }
    assert!(matches!(classify_camera_system_topic(&topic(&[b"close-incident"])), CameraSystemTopic::Ignored));
    assert!(matches!(classify_camera_system_topic(&topic(&[b"drone-data", b"1"])), CameraSystemTopic::Ignored));
}

#[test]
fn camera_data_publish_is_at_most_once() {
    let p = camera_data_publish(b"0;1;1;0".to_vec());
    assert_eq!(p.topic().levels(), &vec![b"camera-data".to_vec()]);
    assert_eq!(p.qos(), &QoS::AtMost);
    assert_eq!(p.package_identifier(), Some(1));
    assert_eq!(p.to_bytes()[0], 0x30);
}

#[test]
fn monitor_client_numbers_its_publishes_from_zero() {
    let mut client = MonitorClient::new();
    for k in 0..3u16 {
        let publish = resolve_incident(
            Incident::new("a".to_string(), "a".to_string(), "d".to_string(), 0, 0, IncidentStatus::Resolvable),
            client.publish_counter(),
        )
        .unwrap();
        assert_eq!(publish.package_identifier(), Some(k));
        client.record_sent(publish, k != 1);
    }
    assert_eq!(client.publish_counter(), 3);
    assert!(client.is_unacknowledged(Some(0)));
    assert!(!client.is_unacknowledged(Some(1)));
    assert!(client.is_unacknowledged(Some(2)));
}

#[test]
fn operator_requests_are_answered_with_the_next_identifier() {
    let mut client = MonitorClient::new();
    let first = client.publish_for(OperatorRequest::AnnounceIncident(b"a;b".to_vec()));
    assert_eq!(first.package_identifier(), Some(0));
    assert_eq!(first.message(), b"a;b".as_slice());
    client.record_sent(first, true);
    let second = client.publish_for(OperatorRequest::RegisterDrone(DroneRegistration {
        id: "7".to_string(),
        username: "u".to_string(),
        password: "p".to_string(),
    }));
    assert_eq!(second.package_identifier(), Some(1));
    assert_eq!(second.message(), b"7;u;p".as_slice());
    client.record_sent(second, false);
    let third = client.publish_for(OperatorRequest::ResolveIncident(Incident::new(
        "x".to_string(),
        "x".to_string(),
        "d".to_string(),
        0,
        0,
        IncidentStatus::Resolvable,
    )));
    assert_eq!(third.package_identifier(), Some(2));
    assert_eq!(third.topic().levels(), &vec![b"close-incident".to_vec(), b"x".to_vec()]);
}
