//! The monitor's client: what it does with each packet the server sends it,
//! and the PUBLISH packets it sends for what its operator asks.
//!
//! Reading and writing the network stream, and talking to the interface,
//! are left to the caller; every decision on what was read is here.

use vstd::prelude::*;
use vstd::utf8::encode_utf8;

use crate::incident::{Incident, IncidentStatus, IncidentView};
use crate::monitor::channels_tasks::{DroneRegistration, IncidentRegistration};
use crate::monitor::unacknowledged::UnacknowledgedPublishes;
use crate::monitor::{
    spec_attend_applies, spec_attend_incident, spec_new_incident, spec_set_resolvable, Monitor,
    MonitorState,
};
use crate::mqtt::packets::puback::Puback;
use crate::mqtt::packets::publish::{Publish, PublishView};
use crate::mqtt::qos::QoS;
use crate::mqtt::topic_name::TopicName;
use crate::text::byte_parts;
use crate::topics::{
    attending_incident_level, camera_data_level, close_incident_level, drone_data_level,
    drone_register_level, new_incident_level, ready_incident_level, same_bytes,
    spec_attending_incident_level, spec_camera_data_level, spec_close_incident_level,
    spec_drone_data_level, spec_drone_register_level, spec_new_incident_level,
    spec_ready_incident_level, spec_utf8_lossy, text_bytes, text_from_utf8_lossy,
};

verus! {

/// A PUBLISH the monitor sends: never a duplicate, never retained, delivered
/// at least once.
pub open spec fn monitor_publish(topic: (Seq<Seq<u8>>, bool), package_identifier: u16, message: Seq<u8>) -> PublishView {
    PublishView {
        dup: false,
        qos: QoS::AtLeast,
        retain: false,
        topic,
        package_identifier: Some(package_identifier),
        message,
    }
}

/// The PUBLISH that registers a drone's credentials with the server: on the
/// server's `$drone-register` topic, the identifier, user name and password
/// between `;`.
pub fn register_drone(drone_registration: DroneRegistration, package_identifier: u16) -> (res: Option<Publish>)
    ensures
        res matches Some(p) && p@ == monitor_publish(
            (seq![spec_drone_register_level()], true),
            package_identifier,
            encode_utf8(drone_registration.id@ + seq![';'] + drone_registration.username@ + seq![';']
                + drone_registration.password@),
        ),
{
    let mut levels: Vec<Vec<u8>> = Vec::new();
    levels.push(drone_register_level());
    let topic_name = TopicName::new(levels, true);
    let message = text_bytes(&drone_registration.build_drone_message());
    assert(byte_parts(levels@) =~= seq![spec_drone_register_level()]);
    Some(Publish::new(false, QoS::AtLeast, false, topic_name, Some(package_identifier), message))
}

/// The PUBLISH that closes an incident: on `close-incident/<uuid>`, with no
/// message.
pub fn resolve_incident(incident: Incident, package_identifier: u16) -> (res: Option<Publish>)
    ensures
        res matches Some(p) && p@ == monitor_publish(
            (seq![spec_close_incident_level(), encode_utf8(incident.uuid@)], false),
            package_identifier,
            Seq::empty(),
        ),
{
    let mut levels: Vec<Vec<u8>> = Vec::new();
    levels.push(close_incident_level());
    levels.push(text_bytes(&incident.uuid));
    let topic_name = TopicName::new(levels, false);
    assert(byte_parts(levels@) =~= seq![spec_close_incident_level(), encode_utf8(incident.uuid@)]);
    Some(Publish::new(false, QoS::AtLeast, false, topic_name, Some(package_identifier), Vec::new()))
}

/// The PUBLISH that announces a new incident: on `new-incident`, with the
/// incident's record as its message.
pub fn new_incident_publish(message: Vec<u8>, package_identifier: u16) -> (p: Publish)
    ensures
        p@ == monitor_publish((seq![spec_new_incident_level()], false), package_identifier, message@),
{
    let mut levels: Vec<Vec<u8>> = Vec::new();
    levels.push(new_incident_level());
    let topic_name = TopicName::new(levels, false);
    assert(byte_parts(levels@) =~= seq![spec_new_incident_level()]);
    Publish::new(false, QoS::AtLeast, false, topic_name, Some(package_identifier), message)
}

/// What an operator asks that the monitor's client answers with a PUBLISH.
pub enum OperatorRequest {
    /// Register a drone's credentials with the server.
    RegisterDrone(DroneRegistration),
    /// Announce a newly registered incident, by its record.
    AnnounceIncident(Vec<u8>),
    /// Close an incident.
    ResolveIncident(Incident),
}

/// What a PUBLISH from the server meant to the monitor.
#[derive(Debug)]
pub enum IncomingPublish {
    /// A drone's data, on `drone-data/<id>`; the message holds its fields.
    DroneData(String),
    /// The cameras' data, on `camera-data`; the message holds their records.
    CameraData,
    /// A drone reached an incident or the drones at it resolved it; this is
    /// the incident as it now stands.
    IncidentChanged(Incident),
    /// A drone reached, or resolved, an incident the monitor does not handle.
    UnknownIncident,
    /// A topic the monitor does not follow.
    UnknownTopic,
}

/// The monitor's client as the specifications see it.
pub struct MonitorClientState {
    pub monitor: MonitorState,
    pub unacknowledged: Map<Option<u16>, PublishView>,
    pub publish_counter: u16,
}

/// The second level of a topic, read as text.
pub open spec fn topic_argument(topic: (Seq<Seq<u8>>, bool)) -> Seq<char> {
    spec_utf8_lossy(topic.0[1])
}

/// A topic the monitor can handle: it has a first level, and a second one
/// when the first names a drone or an incident.
pub open spec fn monitor_topic_well_formed(topic: (Seq<Seq<u8>>, bool)) -> bool {
    &&& topic.0.len() >= 1
    &&& (topic.0[0] == spec_drone_data_level() || topic.0[0] == spec_attending_incident_level()
        || topic.0[0] == spec_ready_incident_level()) ==> topic.0.len() >= 2
}

/// The monitor after a PUBLISH on `topic`: a drone reaching an incident is
/// counted; the drones at an incident having resolved it makes it resolvable;
/// nothing else changes it.
pub open spec fn spec_monitor_after_publish(m: MonitorState, topic: (Seq<Seq<u8>>, bool)) -> MonitorState {
    if topic.0[0] == spec_attending_incident_level() {
        spec_attend_incident(m, topic_argument(topic))
    } else if topic.0[0] == spec_ready_incident_level() {
        spec_set_resolvable(m, topic_argument(topic))
    } else {
        m
    }
}

/// What a PUBLISH on `topic` meant, given the monitor before (`m`) and after
/// (`after`) it.
pub open spec fn spec_incoming_publish(
    res: IncomingPublish,
    m: MonitorState,
    after: MonitorState,
    topic: (Seq<Seq<u8>>, bool),
) -> bool {
    if topic.0[0] == spec_drone_data_level() {
        res matches IncomingPublish::DroneData(id) && id@ == topic_argument(topic)
    } else if topic.0[0] == spec_camera_data_level() {
        res is CameraData
    } else if topic.0[0] == spec_attending_incident_level() {
        if spec_attend_applies(m, topic_argument(topic)) {
            res matches IncomingPublish::IncidentChanged(i) && i@ == after.incidents[topic_argument(topic)]
        } else {
            res is UnknownIncident
        }
    } else if topic.0[0] == spec_ready_incident_level() {
        if m.incidents.contains_key(topic_argument(topic)) {
            res matches IncomingPublish::IncidentChanged(i) && i@ == after.incidents[topic_argument(topic)]
        } else {
            res is UnknownIncident
        }
    } else {
        res is UnknownTopic
    }
}

/// The client after it tried to send `publish`: when it was written it
/// waits for its acknowledgement under its identifier; either way the next
/// identifier is one more, wrapping around after 65535.
pub open spec fn spec_record_sent(c: MonitorClientState, publish: PublishView, written: bool) -> MonitorClientState {
    MonitorClientState {
        unacknowledged: if written {
            c.unacknowledged.insert(publish.package_identifier, publish)
        } else {
            c.unacknowledged
        },
        publish_counter: if c.publish_counter == u16::MAX { 0 } else { (c.publish_counter + 1) as u16 },
        ..c
    }
}

/// The client after a PUBACK for `package_identifier`: the PUBLISH it
/// acknowledges no longer waits.
pub open spec fn spec_after_puback(c: MonitorClientState, package_identifier: Option<u16>) -> MonitorClientState {
    MonitorClientState { unacknowledged: c.unacknowledged.remove(package_identifier), ..c }
}

/// A PUBLISH the client wrote waits until the PUBACK with its identifier
/// comes; that PUBACK is recognised, and afterwards nothing waits under the
/// identifier while every other waiting PUBLISH still waits.
pub proof fn lemma_puback_settles_sent_publish(c: MonitorClientState, publish: PublishView)
    ensures
        spec_record_sent(c, publish, true).unacknowledged.contains_key(publish.package_identifier),
        spec_after_puback(spec_record_sent(c, publish, true), publish.package_identifier).unacknowledged
            == c.unacknowledged.remove(publish.package_identifier),
{
    assert(spec_after_puback(spec_record_sent(c, publish, true), publish.package_identifier).unacknowledged
        =~= c.unacknowledged.remove(publish.package_identifier));
}

/// The monitor's client: the incidents it handles, the PUBLISH packets it
/// sent that wait for an acknowledgement, and the identifier its next
/// PUBLISH gets.
pub struct MonitorClient {
    monitor: Monitor,
    unacknowledged: UnacknowledgedPublishes,
    publish_counter: u16,
}

impl View for MonitorClient {
    type V = MonitorClientState;

    closed spec fn view(&self) -> MonitorClientState {
        MonitorClientState {
            monitor: self.monitor@,
            unacknowledged: self.unacknowledged@,
            publish_counter: self.publish_counter,
        }
    }
}

impl MonitorClient {
    pub closed spec fn well_formed(&self) -> bool {
        self.monitor.well_formed()
    }

    /// A client with no incident, nothing sent, and 0 as its next identifier.
    pub fn new() -> (c: MonitorClient)
        ensures
            c.well_formed(),
            c@.monitor.incidents == Map::<Seq<char>, IncidentView>::empty(),
            c@.monitor.open_incidents == Map::<Seq<char>, nat>::empty(),
            c@.monitor.active_incidents == Map::<Seq<char>, nat>::empty(),
            c@.unacknowledged == Map::<Option<u16>, PublishView>::empty(),
            c@.publish_counter == 0,
    {
        MonitorClient { monitor: Monitor::new(), unacknowledged: UnacknowledgedPublishes::new(), publish_counter: 0 }
    }

    /// The incidents the client handles.
    pub fn monitor(&self) -> (m: &Monitor)
        ensures
            m@ == self@.monitor,
            self.well_formed() ==> m.well_formed(),
    {
        &self.monitor
    }

    /// The identifier the next PUBLISH gets.
    pub fn publish_counter(&self) -> (n: u16)
        ensures
            n == self@.publish_counter,
    {
        self.publish_counter
    }

    /// Whether a PUBLISH with this identifier waits for its acknowledgement.
    pub fn is_unacknowledged(&self, package_identifier: Option<u16>) -> (b: bool)
        ensures
            b == self@.unacknowledged.contains_key(package_identifier),
    {
        self.unacknowledged.contains(package_identifier)
    }

    /// A PUBACK from the server: the PUBLISH it acknowledges no longer
    /// waits. Tells whether one with its identifier was waiting.
    pub fn handle_puback(&mut self, puback: &Puback) -> (known: bool)
        requires
            old(self).well_formed(),
        ensures
            final(self).well_formed(),
            known == old(self)@.unacknowledged.contains_key(puback@),
            final(self)@ == spec_after_puback(old(self)@, puback@),
    {
        let removed = self.unacknowledged.remove(puback.packet_identifier());
        removed.is_some()
    }

    /// A PUBLISH from the server: what it meant, and the PUBACK that answers
    /// it when it asked to be delivered at least once.
    pub fn handle_publish(&mut self, publish: &Publish) -> (res: (IncomingPublish, Option<Puback>))
        requires
            old(self).well_formed(),
            monitor_topic_well_formed(publish@.topic),
        ensures
            final(self).well_formed(),
            final(self)@ == (MonitorClientState {
                monitor: spec_monitor_after_publish(old(self)@.monitor, publish@.topic),
                ..old(self)@
            }),
            spec_incoming_publish(res.0, old(self)@.monitor, final(self)@.monitor, publish@.topic),
            publish@.qos == QoS::AtLeast ==> (res.1 matches Some(p) && p@ == publish@.package_identifier),
            publish@.qos != QoS::AtLeast ==> res.1 is None,
    {
        let ghost topic = publish@.topic;
        let levels = publish.topic().levels();
        assert(levels@[0]@ == topic.0[0]);
        let first = &levels[0];
        let incoming = if same_bytes(first, &drone_data_level()) {
            assert(levels@[1]@ == topic.0[1]);
            IncomingPublish::DroneData(text_from_utf8_lossy(&levels[1]))
        } else if same_bytes(first, &camera_data_level()) {
            IncomingPublish::CameraData
        } else if same_bytes(first, &attending_incident_level()) {
            assert(levels@[1]@ == topic.0[1]);
            let incident_id = text_from_utf8_lossy(&levels[1]);
            match self.monitor.attend_incident(incident_id) {
                Some(incident) => IncomingPublish::IncidentChanged(incident),
                None => IncomingPublish::UnknownIncident,
            }
        } else if same_bytes(first, &ready_incident_level()) {
            assert(levels@[1]@ == topic.0[1]);
            let incident_id = text_from_utf8_lossy(&levels[1]);
            self.monitor.set_resolvable_incident(incident_id.clone());
            match self.monitor.get_incident(&incident_id) {
                Some(incident) => IncomingPublish::IncidentChanged(incident.copy()),
                None => IncomingPublish::UnknownIncident,
            }
        } else {
            IncomingPublish::UnknownTopic
        };
        let reply = if *publish.qos() == QoS::AtLeast {
            Some(Puback::new(publish.package_identifier()))
        } else {
            None
        };
        (incoming, reply)
    }

    /// Registers the incident an operator typed in, at the coordinates read
    /// from it: its name serves as its identifier, and it is pending.
    pub fn register_incident(
        &mut self,
        incident_registration: &IncidentRegistration,
        x_coordinate: u64,
        y_coordinate: u64,
    ) -> (incident: Incident)
        requires
            old(self).well_formed(),
        ensures
            final(self).well_formed(),
            incident@ == (IncidentView {
                uuid: incident_registration.name@,
                name: incident_registration.name@,
                description: incident_registration.description@,
                x_coordinate,
                y_coordinate,
                status: IncidentStatus::Pending,
            }),
            final(self)@ == (MonitorClientState {
                monitor: spec_new_incident(old(self)@.monitor, incident@),
                ..old(self)@
            }),
    {
        let incident = Incident::new(
            incident_registration.name.clone(),
            incident_registration.name.clone(),
            incident_registration.description.clone(),
            x_coordinate,
            y_coordinate,
            IncidentStatus::Pending,
        );
        self.monitor.new_incident(incident.copy());
        incident
    }

    /// The PUBLISH that answers an operator's request, carrying the client's
    /// counter as its identifier.
    pub fn publish_for(&self, request: OperatorRequest) -> (p: Publish)
        ensures
            p@.package_identifier == Some(self@.publish_counter),
            match request {
                OperatorRequest::RegisterDrone(r) => p@ == monitor_publish(
                    (seq![spec_drone_register_level()], true),
                    self@.publish_counter,
                    encode_utf8(r.id@ + seq![';'] + r.username@ + seq![';'] + r.password@),
                ),
                OperatorRequest::AnnounceIncident(record) => p@ == monitor_publish(
                    (seq![spec_new_incident_level()], false),
                    self@.publish_counter,
                    record@,
                ),
                OperatorRequest::ResolveIncident(i) => p@ == monitor_publish(
                    (seq![spec_close_incident_level(), encode_utf8(i.uuid@)], false),
                    self@.publish_counter,
                    Seq::empty(),
                ),
            },
    {
        match request {
            OperatorRequest::RegisterDrone(r) => register_drone(r, self.publish_counter).unwrap(),
            OperatorRequest::AnnounceIncident(record) => new_incident_publish(record, self.publish_counter),
            OperatorRequest::ResolveIncident(i) => resolve_incident(i, self.publish_counter).unwrap(),
        }
    }

    /// Records a PUBLISH the client tried to send: when it was written it
    /// waits for its acknowledgement under its identifier; either way the
    /// next identifier is one more, wrapping around after 65535.
    pub fn record_sent(&mut self, publish: Publish, written: bool)
        requires
            old(self).well_formed(),
        ensures
            final(self).well_formed(),
            final(self)@ == spec_record_sent(old(self)@, publish@, written),
    {
        if written {
            let id = publish.package_identifier();
            self.unacknowledged.insert(id, publish);
        }
        self.publish_counter = if self.publish_counter == u16::MAX { 0 } else { self.publish_counter + 1 };
    }
}

/// The client after it tried to send each of a series of PUBLISH packets
/// in order, each with whether it was written.
pub open spec fn spec_records_sent(c: MonitorClientState, sent: Seq<(PublishView, bool)>) -> MonitorClientState
    decreases sent.len(),
{
    if sent.len() == 0 {
        c
    } else {
        spec_record_sent(spec_records_sent(c, sent.drop_last()), sent.last().0, sent.last().1)
    }
}

/// The PUBLISH packets a client sends are numbered from zero: from a new
/// client (whose counter is zero), when each PUBLISH carries the counter the
/// client holds when it is built (as `publish_for` makes it), the `k`-th one
/// sent carries identifier `k`, for up to 65535 of them, and the counter
/// then stands at their number.
pub proof fn lemma_publishes_numbered_in_order(c: MonitorClientState, sent: Seq<(PublishView, bool)>)
    requires
        c.publish_counter == 0,
        sent.len() <= u16::MAX,
        forall|k: int| 0 <= k < sent.len() ==>
            (#[trigger] sent[k]).0.package_identifier == Some(spec_records_sent(c, sent.take(k)).publish_counter),
    ensures
        spec_records_sent(c, sent).publish_counter == sent.len(),
        forall|k: int| 0 <= k < sent.len() ==> (#[trigger] sent[k]).0.package_identifier == Some(k as u16),
    decreases sent.len(),
{
    if sent.len() > 0 {
        let prefix = sent.drop_last();
        assert forall|k: int| 0 <= k < prefix.len() implies
            (#[trigger] prefix[k]).0.package_identifier == Some(spec_records_sent(c, prefix.take(k)).publish_counter) by {
            assert(prefix.take(k) =~= sent.take(k));
            assert(prefix[k] == sent[k]);
        }
        lemma_publishes_numbered_in_order(c, prefix);
        assert(sent.take(prefix.len() as int) =~= prefix);
        assert forall|k: int| 0 <= k < sent.len() implies (#[trigger] sent[k]).0.package_identifier == Some(k as u16) by {
            if k < prefix.len() {
                assert(prefix[k] == sent[k]);
            }
        }
    }
}

} // verus!
