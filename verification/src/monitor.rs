//! The monitor's record of incidents: which are open and how many drones
//! have reached them, which are being handled.

pub mod camera;
pub mod channels_tasks;
pub mod client;
pub mod drone;
pub mod ui_application;
pub mod unacknowledged;

use vstd::prelude::*;

use crate::incident::{Incident, IncidentStatus, IncidentView};
use crate::string_map::StringMap;

verus! {

/// The number of drones that must reach an incident before it is in progress.
pub const DRONES_PER_INCIDENT: usize = 2;

/// The monitor as the specifications see it: every registered incident by
/// identifier; for each open incident the number of drones that reached it;
/// for each active one a count of drones.
pub struct MonitorState {
    pub incidents: Map<Seq<char>, IncidentView>,
    pub open_incidents: Map<Seq<char>, nat>,
    pub active_incidents: Map<Seq<char>, nat>,
}

/// The incident with a new status.
pub open spec fn with_status(i: IncidentView, status: IncidentStatus) -> IncidentView {
    IncidentView { status, ..i }
}

/// Registering an incident: it is recorded under its identifier, open, with
/// no drone at it yet.
pub open spec fn spec_new_incident(s: MonitorState, incident: IncidentView) -> MonitorState {
    MonitorState {
        incidents: s.incidents.insert(incident.uuid, incident),
        open_incidents: s.open_incidents.insert(incident.uuid, 0),
        active_incidents: s.active_incidents,
    }
}

/// Whether a drone reaching `uuid` is counted: the incident is registered and open.
pub open spec fn spec_attend_applies(s: MonitorState, uuid: Seq<char>) -> bool {
    s.incidents.contains_key(uuid) && s.open_incidents.contains_key(uuid)
}

/// A drone reaches an incident: one more drone is counted; at the second the
/// incident leaves the open ones, becomes active and is in progress.
pub open spec fn spec_attend_incident(s: MonitorState, uuid: Seq<char>) -> MonitorState {
    if spec_attend_applies(s, uuid) {
        let count = s.open_incidents[uuid] + 1;
        if count == DRONES_PER_INCIDENT {
            MonitorState {
                incidents: s.incidents.insert(uuid, with_status(s.incidents[uuid], IncidentStatus::InProgress)),
                open_incidents: s.open_incidents.remove(uuid),
                active_incidents: s.active_incidents.insert(uuid, count as nat),
            }
        } else {
            MonitorState {
                open_incidents: s.open_incidents.insert(uuid, count as nat),
                ..s
            }
        }
    } else {
        s
    }
}

/// Renaming and redescribing a registered incident.
pub open spec fn spec_edit_incident(s: MonitorState, uuid: Seq<char>, name: Seq<char>, description: Seq<char>) -> MonitorState {
    if s.incidents.contains_key(uuid) {
        MonitorState {
            incidents: s.incidents.insert(uuid, IncidentView { name, description, ..s.incidents[uuid] }),
            ..s
        }
    } else {
        s
    }
}

/// Marking a registered incident resolvable: one drone is counted as active on it.
pub open spec fn spec_set_resolvable(s: MonitorState, uuid: Seq<char>) -> MonitorState {
    if s.incidents.contains_key(uuid) {
        MonitorState {
            incidents: s.incidents.insert(uuid, with_status(s.incidents[uuid], IncidentStatus::Resolvable)),
            active_incidents: s.active_incidents.insert(uuid, 1),
            ..s
        }
    } else {
        s
    }
}

/// Marking a registered incident resolved: it is no longer active.
pub open spec fn spec_set_resolved(s: MonitorState, uuid: Seq<char>) -> MonitorState {
    if s.incidents.contains_key(uuid) {
        MonitorState {
            incidents: s.incidents.insert(uuid, with_status(s.incidents[uuid], IncidentStatus::Resolved)),
            active_incidents: s.active_incidents.remove(uuid),
            ..s
        }
    } else {
        s
    }
}

/// The monitor that handles all incidents.
pub struct Monitor {
    incidents: StringMap<Incident>,
    open_incidents: StringMap<usize>,
    active_incidents: StringMap<usize>,
}

impl View for Monitor {
    type V = MonitorState;

    closed spec fn view(&self) -> MonitorState {
        MonitorState {
            incidents: self.incidents@.map_values(|i: Incident| i@),
            open_incidents: self.open_incidents@.map_values(|c: usize| c as nat),
            active_incidents: self.active_incidents@.map_values(|c: usize| c as nat),
        }
    }
}

impl Monitor {
    /// Every open incident has been reached by fewer drones than it takes to
    /// handle it.
    pub closed spec fn well_formed(&self) -> bool {
        forall|k: Seq<char>| #[trigger] self.open_incidents@.contains_key(k) ==> self.open_incidents@[k] < DRONES_PER_INCIDENT
    }

    pub fn new() -> (m: Monitor)
        ensures
            m.well_formed(),
            m@.incidents == Map::<Seq<char>, IncidentView>::empty(),
            m@.open_incidents == Map::<Seq<char>, nat>::empty(),
            m@.active_incidents == Map::<Seq<char>, nat>::empty(),
    {
        let m = Monitor {
            incidents: StringMap::new(),
            open_incidents: StringMap::new(),
            active_incidents: StringMap::new(),
        };
        assert(m@.incidents =~= Map::<Seq<char>, IncidentView>::empty());
        assert(m@.open_incidents =~= Map::<Seq<char>, nat>::empty());
        assert(m@.active_incidents =~= Map::<Seq<char>, nat>::empty());
        m
    }

    /// Registers a new incident, open and not yet reached by any drone.
    pub fn new_incident(&mut self, incident: Incident)
        requires
            old(self).well_formed(),
        ensures
            final(self).well_formed(),
            final(self)@ == spec_new_incident(old(self)@, incident@),
    {
        let key = incident.uuid.clone();
        let key2 = incident.uuid.clone();
        let ghost v = incident@;
        self.incidents.insert(key, incident);
        self.open_incidents.insert(key2, 0);
        assert(self@.incidents =~= old(self)@.incidents.insert(v.uuid, v));
        assert(self@.open_incidents =~= old(self)@.open_incidents.insert(v.uuid, 0));
        assert(self@.active_incidents =~= old(self)@.active_incidents);
    }

    /// Counts one more drone at an open incident; at the second one the
    /// incident is in progress. Gives the incident as it now stands, or
    /// nothing when it is not registered or not open.
    pub fn attend_incident(&mut self, incident_uuid: String) -> (res: Option<Incident>)
        requires
            old(self).well_formed(),
        ensures
            final(self).well_formed(),
            final(self)@ == spec_attend_incident(old(self)@, incident_uuid@),
            spec_attend_applies(old(self)@, incident_uuid@) ==>
                (res matches Some(i) && i@ == final(self)@.incidents[incident_uuid@]),
            !spec_attend_applies(old(self)@, incident_uuid@) ==> res is None,
    {
        let ghost s0 = self@;
        let incident = match self.incidents.get(&incident_uuid) {
            Some(i) => i.copy(),
            None => return None,
        };
        let open_count = match self.open_incidents.get(&incident_uuid) {
            Some(c) => *c,
            None => return None,
        };
        let count = open_count + 1;
        if count == DRONES_PER_INCIDENT {
            self.active_incidents.insert(incident_uuid.clone(), count);
            self.open_incidents.remove(&incident_uuid);
            let mut updated = incident;
            updated.status = IncidentStatus::InProgress;
            let result = updated.copy();
            self.incidents.insert(incident_uuid.clone(), updated);
            assert(self@.incidents =~= spec_attend_incident(s0, incident_uuid@).incidents);
            assert(self@.open_incidents =~= spec_attend_incident(s0, incident_uuid@).open_incidents);
            assert(self@.active_incidents =~= spec_attend_incident(s0, incident_uuid@).active_incidents);
            Some(result)
        } else {
            self.open_incidents.insert(incident_uuid.clone(), count);
            assert(self@.incidents =~= spec_attend_incident(s0, incident_uuid@).incidents);
            assert(self@.open_incidents =~= spec_attend_incident(s0, incident_uuid@).open_incidents);
            assert(self@.active_incidents =~= spec_attend_incident(s0, incident_uuid@).active_incidents);
            Some(incident)
        }
    }

    /// Changes the name and description of a registered incident and gives it
    /// as it now stands; gives nothing when it is not registered.
    pub fn edit_incident(&mut self, incident_uuid: String, name: String, description: String) -> (res: Option<Incident>)
        requires
            old(self).well_formed(),
        ensures
            final(self).well_formed(),
            final(self)@ == spec_edit_incident(old(self)@, incident_uuid@, name@, description@),
            old(self)@.incidents.contains_key(incident_uuid@) ==>
                (res matches Some(i) && i@ == final(self)@.incidents[incident_uuid@]),
            !old(self)@.incidents.contains_key(incident_uuid@) ==> res is None,
    {
        let ghost s0 = self@;
        let mut incident = match self.incidents.get(&incident_uuid) {
            Some(i) => i.copy(),
            None => return None,
        };
        incident.name = name;
        incident.description = description;
        let result = incident.copy();
        self.incidents.insert(incident_uuid, incident);
        assert(self@.incidents =~= spec_edit_incident(s0, incident_uuid@, name@, description@).incidents);
        Some(result)
    }

    /// The incident registered under the identifier, if any.
    pub fn get_incident(&self, incident_uuid: &String) -> (res: Option<&Incident>)
        ensures
            self@.incidents.contains_key(incident_uuid@) ==>
                (res matches Some(i) && i@ == self@.incidents[incident_uuid@]),
            !self@.incidents.contains_key(incident_uuid@) ==> res is None,
    {
        self.incidents.get(incident_uuid)
    }

    /// Marks a registered incident resolvable.
    pub fn set_resolvable_incident(&mut self, incident_uuid: String)
        requires
            old(self).well_formed(),
        ensures
            final(self).well_formed(),
            final(self)@ == spec_set_resolvable(old(self)@, incident_uuid@),
    {
        let ghost s0 = self@;
        let mut incident = match self.incidents.get(&incident_uuid) {
            Some(i) => i.copy(),
            None => return,
        };
        incident.status = IncidentStatus::Resolvable;
        self.incidents.insert(incident_uuid.clone(), incident);
        self.active_incidents.insert(incident_uuid.clone(), 1);
        assert(self@.incidents =~= spec_set_resolvable(s0, incident_uuid@).incidents);
        assert(self@.active_incidents =~= spec_set_resolvable(s0, incident_uuid@).active_incidents);
    }

    /// Marks a registered incident resolved; it is no longer active.
    pub fn set_resolved_incident(&mut self, incident_uuid: String)
        requires
            old(self).well_formed(),
        ensures
            final(self).well_formed(),
            final(self)@ == spec_set_resolved(old(self)@, incident_uuid@),
    {
        let ghost s0 = self@;
        let mut incident = match self.incidents.get(&incident_uuid) {
            Some(i) => i.copy(),
            None => return,
        };
        incident.status = IncidentStatus::Resolved;
        self.incidents.insert(incident_uuid.clone(), incident);
        self.active_incidents.remove(&incident_uuid);
        assert(self@.incidents =~= spec_set_resolved(s0, incident_uuid@).incidents);
        assert(self@.active_incidents =~= spec_set_resolved(s0, incident_uuid@).active_incidents);
    }
}

/// A registered incident can be read back as it was registered, open and
/// reached by no drone.
pub proof fn lemma_register_then_read(s: MonitorState, incident: IncidentView)
    ensures
        spec_new_incident(s, incident).incidents[incident.uuid] == incident,
        spec_new_incident(s, incident).open_incidents[incident.uuid] == 0,
{
}

/// The first drone to reach a newly registered incident leaves its status as
/// it was and is counted.
pub proof fn lemma_attend_once(s: MonitorState, incident: IncidentView)
    ensures
        ({
            let t = spec_attend_incident(spec_new_incident(s, incident), incident.uuid);
            &&& t.incidents[incident.uuid] == incident
            &&& t.open_incidents[incident.uuid] == 1
            &&& t.active_incidents == s.active_incidents
        }),
{
}

/// The second drone to reach a newly registered incident puts it in progress:
/// it is no longer open and is active with two drones.
pub proof fn lemma_attend_twice(s: MonitorState, incident: IncidentView)
    ensures
        ({
            let t = spec_attend_incident(
                spec_attend_incident(spec_new_incident(s, incident), incident.uuid),
                incident.uuid,
            );
            &&& t.incidents[incident.uuid] == with_status(incident, IncidentStatus::InProgress)
            &&& !t.open_incidents.contains_key(incident.uuid)
            &&& t.active_incidents.contains_key(incident.uuid)
            &&& t.active_incidents[incident.uuid] == 2
        }),
{
}

/// Once an incident has left the open ones, more drones reaching it change
/// nothing.
pub proof fn lemma_attend_closed_incident(s: MonitorState, uuid: Seq<char>)
    requires
        !s.open_incidents.contains_key(uuid),
    ensures
        spec_attend_incident(s, uuid) == s,
{
}

/// Editing an incident changes its name and description and nothing else.
pub proof fn lemma_edit_keeps_the_rest(s: MonitorState, uuid: Seq<char>, name: Seq<char>, description: Seq<char>)
    requires
        s.incidents.contains_key(uuid),
    ensures
        ({
            let t = spec_edit_incident(s, uuid, name, description);
            let before = s.incidents[uuid];
            let after = t.incidents[uuid];
            &&& after.name == name && after.description == description
            &&& after.uuid == before.uuid && after.status == before.status
            &&& after.x_coordinate == before.x_coordinate && after.y_coordinate == before.y_coordinate
            &&& t.open_incidents == s.open_incidents && t.active_incidents == s.active_incidents
        }),
{
}

/// A resolved incident is no longer active, and stays resolved.
pub proof fn lemma_resolved_is_inactive(s: MonitorState, uuid: Seq<char>)
    requires
        s.incidents.contains_key(uuid),
    ensures
        !spec_set_resolved(s, uuid).active_incidents.contains_key(uuid),
        spec_set_resolved(s, uuid).incidents[uuid].status == IncidentStatus::Resolved,
{
}

/// A call on the monitor's incidents: `new_incident`, `attend_incident`,
/// `edit_incident`, `set_resolvable_incident` or `set_resolved_incident`.
pub enum MonitorCall {
    NewIncident(IncidentView),
    Attend(Seq<char>),
    Edit(Seq<char>, Seq<char>, Seq<char>),
    SetResolvable(Seq<char>),
    SetResolved(Seq<char>),
}

/// The incident identifier a call is about.
pub open spec fn spec_call_uuid(call: MonitorCall) -> Seq<char> {
    match call {
        MonitorCall::NewIncident(i) => i.uuid,
        MonitorCall::Attend(uuid) => uuid,
        MonitorCall::Edit(uuid, _, _) => uuid,
        MonitorCall::SetResolvable(uuid) => uuid,
        MonitorCall::SetResolved(uuid) => uuid,
    }
}

/// The monitor after one call.
pub open spec fn spec_monitor_after_call(s: MonitorState, call: MonitorCall) -> MonitorState {
    match call {
        MonitorCall::NewIncident(i) => spec_new_incident(s, i),
        MonitorCall::Attend(uuid) => spec_attend_incident(s, uuid),
        MonitorCall::Edit(uuid, name, description) => spec_edit_incident(s, uuid, name, description),
        MonitorCall::SetResolvable(uuid) => spec_set_resolvable(s, uuid),
        MonitorCall::SetResolved(uuid) => spec_set_resolved(s, uuid),
    }
}

/// The monitor after a series of calls, in order.
pub open spec fn spec_monitor_after_calls(s: MonitorState, calls: Seq<MonitorCall>) -> MonitorState
    decreases calls.len(),
{
    if calls.len() == 0 {
        s
    } else {
        spec_monitor_after_call(spec_monitor_after_calls(s, calls.drop_last()), calls.last())
    }
}

/// How many calls of a series are drones reaching the incident `uuid`.
pub open spec fn spec_attends_of(calls: Seq<MonitorCall>, uuid: Seq<char>) -> nat
    decreases calls.len(),
{
    if calls.len() == 0 {
        0
    } else {
        spec_attends_of(calls.drop_last(), uuid) + if calls.last() == MonitorCall::Attend(uuid) { 1nat } else { 0nat }
    }
}

/// Registering an incident, then any series of calls in which the only ones
/// about that incident are drones reaching it: while fewer than two drones
/// have reached it, it stays as registered, open, with their number counted,
/// and the next drone is counted and given it (in progress if that drone is
/// the second); from the second drone on it is in progress, no longer open,
/// active with two drones, and further drones change nothing.
pub proof fn lemma_attends_until_in_progress(s: MonitorState, incident: IncidentView, calls: Seq<MonitorCall>)
    requires
        forall|j: int| 0 <= j < calls.len() ==>
            (#[trigger] calls[j] is Attend) || spec_call_uuid(calls[j]) != incident.uuid,
    ensures
        ({
            let u = incident.uuid;
            let t = spec_monitor_after_calls(spec_new_incident(s, incident), calls);
            let k = spec_attends_of(calls, u);
            &&& t.incidents.contains_key(u)
            &&& spec_attend_applies(t, u) <==> k < DRONES_PER_INCIDENT
            &&& k < DRONES_PER_INCIDENT ==> t.incidents[u] == incident && t.open_incidents[u] == k
                && spec_attend_incident(t, u).incidents[u] == (if k == 0 {
                    incident
                } else {
                    with_status(incident, IncidentStatus::InProgress)
                })
            &&& k >= DRONES_PER_INCIDENT ==> t.incidents[u] == with_status(incident, IncidentStatus::InProgress)
                && !t.open_incidents.contains_key(u)
                && t.active_incidents.contains_key(u) && t.active_incidents[u] == DRONES_PER_INCIDENT
                && spec_attend_incident(t, u) == t
        }),
    decreases calls.len(),
{
    if calls.len() > 0 {
        let prefix = calls.drop_last();
        assert forall|j: int| 0 <= j < prefix.len() implies
            (#[trigger] prefix[j] is Attend) || spec_call_uuid(prefix[j]) != incident.uuid by {
            assert(prefix[j] == calls[j]);
        }
        lemma_attends_until_in_progress(s, incident, prefix);
        assert(calls[calls.len() - 1] == calls.last());
    }
}

/// A drone reaching an incident that was never registered is given nothing
/// and changes nothing.
pub proof fn lemma_attend_unregistered(s: MonitorState, uuid: Seq<char>)
    requires
        !s.incidents.contains_key(uuid),
    ensures
        !spec_attend_applies(s, uuid),
        spec_attend_incident(s, uuid) == s,
{
}

} // verus!
