//! The camera system's client: what each PUBLISH the server relays means to
//! the camera system, and the PUBLISH that carries the cameras' data.

use vstd::prelude::*;

use crate::mqtt::packets::publish::{Publish, PublishView};
use crate::mqtt::qos::QoS;
use crate::mqtt::topic_name::TopicName;
use crate::text::byte_parts;
use crate::topics::{
    camera_data_level, close_incident_level, new_incident_level, same_bytes,
    spec_camera_data_level, spec_close_incident_level, spec_new_incident_level, spec_utf8_lossy,
    text_from_utf8_lossy,
};

verus! {

/// What a PUBLISH relayed to the camera system is about, by its topic.
#[derive(Debug)]
pub enum CameraSystemTopic {
    /// `new-incident`: the message is an incident record.
    NewIncident,
    /// `close-incident/<uuid>`: the incident is closed.
    CloseIncident(String),
    /// Any other topic.
    Ignored,
}

/// What a topic is about to the camera system.
pub open spec fn spec_camera_system_topic(res: CameraSystemTopic, topic: (Seq<Seq<u8>>, bool)) -> bool {
    let levels = topic.0;
    if levels.len() == 1 && levels[0] == spec_new_incident_level() {
        res is NewIncident
    } else if levels.len() == 2 && levels[0] == spec_close_incident_level() {
        res matches CameraSystemTopic::CloseIncident(u) && u@ == spec_utf8_lossy(levels[1])
    } else {
        res is Ignored
    }
}

/// Reads what a PUBLISH's topic is about: a new incident on `new-incident`,
/// an incident closed on `close-incident/<uuid>`.
pub fn classify_camera_system_topic(topic: &TopicName) -> (res: CameraSystemTopic)
    ensures
        spec_camera_system_topic(res, topic@),
{
    let levels = topic.levels();
    if levels.len() == 1 && same_bytes(&levels[0], &new_incident_level()) {
        CameraSystemTopic::NewIncident
    } else if levels.len() == 2 && same_bytes(&levels[0], &close_incident_level()) {
        assert(levels@[1]@ == topic@.0[1]);
        CameraSystemTopic::CloseIncident(text_from_utf8_lossy(&levels[1]))
    } else {
        CameraSystemTopic::Ignored
    }
}

/// The PUBLISH that carries the cameras' data: on `camera-data`, delivered
/// at most once, identified as 1, never a duplicate nor retained.
pub fn camera_data_publish(message: Vec<u8>) -> (p: Publish)
    ensures
        p@ == (PublishView {
            dup: false,
            qos: QoS::AtMost,
            retain: false,
            topic: (seq![spec_camera_data_level()], false),
            package_identifier: Some(1u16),
            message: message@,
        }),
{
    let mut levels: Vec<Vec<u8>> = Vec::new();
    levels.push(camera_data_level());
    assert(byte_parts(levels@) =~= seq![spec_camera_data_level()]);
    Publish::new(false, QoS::AtMost, false, TopicName::new(levels, false), Some(1), message)
}

} // verus!
