//! The drone's client: what each PUBLISH the server relays means to the
//! drone, and the PUBLISH packets the drone sends.
//!
//! Reading and writing the network stream, travelling and waiting are left
//! to the caller; the decisions on a drone's state are `Drone`'s own.

use vstd::prelude::*;
use vstd::utf8::{decode_utf8, encode_utf8, valid_utf8};

use crate::mqtt::packets::publish::{Publish, PublishView};
use crate::mqtt::qos::QoS;
use crate::mqtt::topic_name::TopicName;
use crate::text::byte_parts;
use crate::topics::{
    attending_incident_level, close_incident_level, drone_data_level, new_incident_level,
    ready_incident_level, same_bytes, spec_attending_incident_level, spec_close_incident_level,
    spec_drone_data_level, spec_new_incident_level, spec_ready_incident_level, text_bytes,
    text_from_utf8,
};

verus! {

/// The decimal digits of a number, as ASCII bytes.
pub open spec fn spec_decimal(n: nat) -> Seq<u8>
    decreases n,
{
    if n < 10 {
        seq![(48 + n) as u8]
    } else {
        spec_decimal(n / 10).push((48 + n % 10) as u8)
    }
}

/// The decimal digits of a byte, as ASCII bytes.
pub fn decimal_bytes(n: u8) -> (d: Vec<u8>)
    ensures
        d@ == spec_decimal(n as nat),
{
    let mut out: Vec<u8> = Vec::new();
    if n >= 100 {
        out.push(48 + n / 100);
    }
    if n >= 10 {
        out.push(48 + (n / 10) % 10);
    }
    out.push(48 + n % 10);
    proof {
        reveal_with_fuel(spec_decimal, 3);
        if n >= 100 {
            assert((n / 10) / 10 == n / 100);
            assert(out@ =~= spec_decimal(n as nat));
        } else if n >= 10 {
            assert(out@ =~= spec_decimal(n as nat));
        } else {
            assert(out@ =~= spec_decimal(n as nat));
        }
    }
    out
}

/// What a PUBLISH relayed to a drone is about, by its topic.
#[derive(Debug)]
pub enum DroneTopic {
    /// `new-incident`: the message is an incident record.
    NewIncident,
    /// `attending-incident/<uuid>`: a drone reached the incident.
    AttendingIncident(String),
    /// `ready-incident/<uuid>`: the drones at the incident resolved it.
    ReadyIncident(String),
    /// `close-incident/<uuid>`: the monitor closed the incident.
    CloseIncident(String),
    /// Any other topic, or an identifier that is not valid UTF-8.
    Ignored,
}

/// What a topic is about to a drone.
pub open spec fn spec_drone_topic(res: DroneTopic, topic: (Seq<Seq<u8>>, bool)) -> bool {
    let levels = topic.0;
    if levels.len() == 1 && levels[0] == spec_new_incident_level() {
        res is NewIncident
    } else if levels.len() != 2 || !valid_utf8(levels[1]) {
        res is Ignored
    } else if levels[0] == spec_attending_incident_level() {
        res matches DroneTopic::AttendingIncident(u) && u@ == decode_utf8(levels[1])
    } else if levels[0] == spec_ready_incident_level() {
        res matches DroneTopic::ReadyIncident(u) && u@ == decode_utf8(levels[1])
    } else if levels[0] == spec_close_incident_level() {
        res matches DroneTopic::CloseIncident(u) && u@ == decode_utf8(levels[1])
    } else {
        res is Ignored
    }
}

/// Reads what a PUBLISH's topic is about: a new incident on `new-incident`;
/// on a two-level topic whose second level is an incident's identifier, a
/// drone attending it, the incident ready, or the incident closed.
pub fn classify_drone_topic(topic: &TopicName) -> (res: DroneTopic)
    ensures
        spec_drone_topic(res, topic@),
{
    let levels = topic.levels();
    if levels.len() == 1 && same_bytes(&levels[0], &new_incident_level()) {
        return DroneTopic::NewIncident;
    }
    if levels.len() != 2 {
        return DroneTopic::Ignored;
    }
    assert(levels@[1]@ == topic@.0[1]);
    assert(levels@[0]@ == topic@.0[0]);
    let incident_uuid = match text_from_utf8(levels[1].clone()) {
        Some(uuid) => uuid,
        None => return DroneTopic::Ignored,
    };
    if same_bytes(&levels[0], &attending_incident_level()) {
        DroneTopic::AttendingIncident(incident_uuid)
    } else if same_bytes(&levels[0], &ready_incident_level()) {
        DroneTopic::ReadyIncident(incident_uuid)
    } else if same_bytes(&levels[0], &close_incident_level()) {
        DroneTopic::CloseIncident(incident_uuid)
    } else {
        DroneTopic::Ignored
    }
}

/// The topic `<first>/<uuid>`.
fn incident_topic(first: Vec<u8>, incident_uuid: &String) -> (t: TopicName)
    ensures
        t@ == (seq![first@, encode_utf8(incident_uuid@)], false),
{
    let mut levels: Vec<Vec<u8>> = Vec::new();
    let ghost f = first@;
    levels.push(first);
    levels.push(text_bytes(incident_uuid));
    assert(byte_parts(levels@) =~= seq![f, encode_utf8(incident_uuid@)]);
    TopicName::new(levels, false)
}

/// `attending-incident/<uuid>`: where a drone tells it reached an incident.
pub fn attending_incident_topic(incident_uuid: &String) -> (t: TopicName)
    ensures
        t@ == (seq![spec_attending_incident_level(), encode_utf8(incident_uuid@)], false),
{
    incident_topic(attending_incident_level(), incident_uuid)
}

/// `ready-incident/<uuid>`: where the drones tell they resolved an incident.
pub fn ready_incident_topic(incident_uuid: &String) -> (t: TopicName)
    ensures
        t@ == (seq![spec_ready_incident_level(), encode_utf8(incident_uuid@)], false),
{
    incident_topic(ready_incident_level(), incident_uuid)
}

/// `drone-data/<id>`: where a drone publishes its data.
pub fn drone_data_topic(id: u8) -> (t: TopicName)
    ensures
        t@ == (seq![spec_drone_data_level(), spec_decimal(id as nat)], false),
{
    let mut levels: Vec<Vec<u8>> = Vec::new();
    levels.push(drone_data_level());
    levels.push(decimal_bytes(id));
    assert(byte_parts(levels@) =~= seq![spec_drone_data_level(), spec_decimal(id as nat)]);
    TopicName::new(levels, false)
}

/// A PUBLISH a drone sends: never a duplicate nor retained; identified as 1
/// when it asks to be delivered at least once, unidentified otherwise.
pub open spec fn spec_drone_publish(topic: (Seq<Seq<u8>>, bool), message: Seq<u8>, qos: QoS) -> PublishView {
    PublishView {
        dup: false,
        qos,
        retain: false,
        topic,
        package_identifier: if qos == QoS::AtLeast { Some(1u16) } else { None },
        message,
    }
}

/// The PUBLISH a drone sends with a message on a topic.
pub fn publish_packet(topic_name: TopicName, message: Vec<u8>, qos: QoS) -> (p: Publish)
    ensures
        p@ == spec_drone_publish(topic_name@, message@, qos),
{
    let package_identifier = if qos == QoS::AtLeast { Some(1u16) } else { None };
    Publish::new(false, qos, false, topic_name, package_identifier, message)
}

} // verus!
