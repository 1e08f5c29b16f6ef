//! The camera system: cameras that wake while incidents near them are
//! active, and the record of active incidents.

pub mod client;

use vstd::prelude::*;

use crate::incident::{Incident, IncidentView};
use crate::string_map::StringMap;

verus! {

/// Whether a camera is recording.
#[derive(Debug, Clone, Copy, PartialEq, Eq, Structural)]
pub enum CameraStatus {
    Active,
    Sleep,
}

impl CameraStatus {
    /// The status's code in the camera's data record.
    pub fn to_string(&self) -> (code: String)
        ensures
            code@ == (match *self {
                CameraStatus::Active => seq!['1'],
                CameraStatus::Sleep => seq!['0'],
            }),
    {
        proof {
            reveal_strlit("1");
            reveal_strlit("0");
        }
        match self {
            CameraStatus::Active => "1".to_owned(),
            CameraStatus::Sleep => "0".to_owned(),
        }
    }
}

/// A camera as the specifications see it. Its coordinates are the bit
/// patterns of their IEEE-754 double-precision values.
pub struct CameraView {
    pub id: u8,
    pub x_coordinate: u64,
    pub y_coordinate: u64,
    pub status: CameraStatus,
    pub active_incidents: nat,
}

/// A camera follows one more incident, waking if it followed none.
pub open spec fn spec_follow(c: CameraView) -> CameraView {
    CameraView {
        status: if c.active_incidents == 0 { CameraStatus::Active } else { c.status },
        active_incidents: c.active_incidents + 1,
        ..c
    }
}

/// A camera follows one incident less, going to sleep when it follows none.
pub open spec fn spec_unfollow(c: CameraView) -> CameraView {
    CameraView {
        status: if c.active_incidents == 1 { CameraStatus::Sleep } else { c.status },
        active_incidents: (c.active_incidents - 1) as nat,
        ..c
    }
}

/// A camera is active exactly while it follows some incident.
pub open spec fn spec_camera_consistent(c: CameraView) -> bool {
    (c.status == CameraStatus::Active) == (c.active_incidents > 0)
}

/// A camera in the system.
#[derive(Debug, Clone, Copy)]
pub struct Camera {
    id: u8,
    x_coordinate: u64,
    y_coordinate: u64,
    status: CameraStatus,
    active_incidents: usize,
}

impl View for Camera {
    type V = CameraView;

    closed spec fn view(&self) -> CameraView {
        CameraView {
            id: self.id,
            x_coordinate: self.x_coordinate,
            y_coordinate: self.y_coordinate,
            status: self.status,
            active_incidents: self.active_incidents as nat,
        }
    }
}

impl Camera {
    /// A camera records exactly while it follows some incident.
    #[verifier::type_invariant]
    spec fn records_while_following(self) -> bool {
        spec_camera_consistent(self@)
    }

    /// A sleeping camera that follows no incident.
    pub fn new(id: u8, x_coordinate: u64, y_coordinate: u64) -> (c: Camera)
        ensures
            c@ == (CameraView { id, x_coordinate, y_coordinate, status: CameraStatus::Sleep, active_incidents: 0 }),
            spec_camera_consistent(c@),
    {
        Camera { id, x_coordinate, y_coordinate, status: CameraStatus::Sleep, active_incidents: 0 }
    }

    pub fn id(&self) -> (id: u8)
        ensures
            id == self@.id,
    {
        self.id
    }

    pub fn x_coordinate(&self) -> (x: u64)
        ensures
            x == self@.x_coordinate,
    {
        self.x_coordinate
    }

    pub fn y_coordinate(&self) -> (y: u64)
        ensures
            y == self@.y_coordinate,
    {
        self.y_coordinate
    }

    pub fn status(&self) -> (s: CameraStatus)
        ensures
            s == self@.status,
    {
        self.status
    }

    /// The number of active incidents the camera follows.
    pub fn active_incidents(&self) -> (n: usize)
        ensures
            n == self@.active_incidents,
    {
        self.active_incidents
    }

    /// Follows one more incident, waking if it followed none.
    pub fn follow_incident(&mut self)
        requires
            old(self)@.active_incidents < usize::MAX,
        ensures
            final(self)@ == spec_follow(old(self)@),
            spec_camera_consistent(final(self)@),
    {
        proof { use_type_invariant(&*self); }
        let status = if self.active_incidents == 0 { CameraStatus::Active } else { self.status };
        *self = Camera {
            id: self.id,
            x_coordinate: self.x_coordinate,
            y_coordinate: self.y_coordinate,
            status,
            active_incidents: self.active_incidents + 1,
        };
    }

    /// Follows one incident less, going to sleep when it follows none.
    pub fn unfollow_incident(&mut self)
        requires
            old(self)@.active_incidents > 0,
        ensures
            final(self)@ == spec_unfollow(old(self)@),
            spec_camera_consistent(final(self)@),
    {
        proof { use_type_invariant(&*self); }
        let active_incidents = self.active_incidents - 1;
        let status = if active_incidents == 0 { CameraStatus::Sleep } else { self.status };
        *self = Camera {
            id: self.id,
            x_coordinate: self.x_coordinate,
            y_coordinate: self.y_coordinate,
            status,
            active_incidents,
        };
    }
}

/// Following and unfollowing keep a camera active exactly while it follows
/// incidents, and unfollowing undoes following.
pub proof fn lemma_follow_unfollow(c: CameraView)
    requires
        spec_camera_consistent(c),
    ensures
        spec_camera_consistent(spec_follow(c)),
        c.active_incidents > 0 ==> spec_camera_consistent(spec_unfollow(c)),
        spec_unfollow(spec_follow(c)) == c,
{
}

/// The camera system as the specifications see it: its cameras in order and
/// the active incidents by identifier.
pub struct CameraSystemView {
    pub cameras: Seq<CameraView>,
    pub active_incidents: Map<Seq<char>, IncidentView>,
}

/// The cameras after an incident opens: those near it follow it.
pub open spec fn spec_cameras_follow(cameras: Seq<CameraView>, near: Seq<bool>) -> Seq<CameraView> {
    Seq::new(cameras.len(), |i: int| if near[i] { spec_follow(cameras[i]) } else { cameras[i] })
}

/// The cameras after an incident closes: those near it stop following it.
pub open spec fn spec_cameras_unfollow(cameras: Seq<CameraView>, near: Seq<bool>) -> Seq<CameraView> {
    Seq::new(cameras.len(), |i: int| if near[i] { spec_unfollow(cameras[i]) } else { cameras[i] })
}

/// Every camera of the list is active exactly while it follows some incident.
pub open spec fn spec_cameras_consistent(cameras: Seq<CameraView>) -> bool {
    forall|i: int| 0 <= i < cameras.len() ==> spec_camera_consistent(#[trigger] cameras[i])
}

/// The system after an incident opens: the cameras near it (`near[i]` for
/// the `i`-th) follow it, and it is recorded as active.
pub open spec fn spec_open_incident(s: CameraSystemView, incident: IncidentView, near: Seq<bool>) -> CameraSystemView {
    CameraSystemView {
        cameras: spec_cameras_follow(s.cameras, near),
        active_incidents: s.active_incidents.insert(incident.uuid, incident),
    }
}

/// The system after an incident closes: the cameras near it stop following
/// it, and it is no longer active.
pub open spec fn spec_close_incident(s: CameraSystemView, uuid: Seq<char>, near: Seq<bool>) -> CameraSystemView {
    CameraSystemView {
        cameras: spec_cameras_unfollow(s.cameras, near),
        active_incidents: s.active_incidents.remove(uuid),
    }
}

/// The views of a list of cameras.
pub open spec fn camera_views(s: Seq<Camera>) -> Seq<CameraView> {
    Seq::new(s.len(), |i: int| s[i]@)
}

/// The system's cameras and the incidents they watch.
pub struct CameraSystem {
    cameras: Vec<Camera>,
    active_incidents: StringMap<Incident>,
}

impl View for CameraSystem {
    type V = CameraSystemView;

    closed spec fn view(&self) -> CameraSystemView {
        CameraSystemView {
            cameras: camera_views(self.cameras@),
            active_incidents: self.active_incidents@.map_values(|i: Incident| i@),
        }
    }
}

impl CameraSystem {
    /// Every camera of the system records exactly while it follows some incident.
    #[verifier::type_invariant]
    spec fn cameras_record_while_following(self) -> bool {
        spec_cameras_consistent(camera_views(self.cameras@))
    }

    /// A system with no camera and no active incident.
    pub fn new() -> (s: CameraSystem)
        ensures
            s@.cameras == Seq::<CameraView>::empty(),
            s@.active_incidents == Map::<Seq<char>, IncidentView>::empty(),
            spec_cameras_consistent(s@.cameras),
    {
        let s = CameraSystem { cameras: Vec::new(), active_incidents: StringMap::new() };
        assert(s@.cameras =~= Seq::<CameraView>::empty());
        assert(s@.active_incidents =~= Map::<Seq<char>, IncidentView>::empty());
        s
    }

    /// Adds a camera after the others.
    pub fn add_camera(&mut self, camera: Camera)
        ensures
            final(self)@ == (CameraSystemView { cameras: old(self)@.cameras.push(camera@), ..old(self)@ }),
            spec_cameras_consistent(final(self)@.cameras),
    {
        proof {
            use_type_invariant(&*self);
            use_type_invariant(&camera);
        }
        let ghost v = camera@;
        let mut cameras: Vec<Camera> = Vec::new();
        std::mem::swap(&mut cameras, &mut self.cameras);
        cameras.push(camera);
        assert(camera_views(cameras@) =~= old(self)@.cameras.push(v));
        self.cameras = cameras;
    }

    /// The cameras, in the order they were added; each is active exactly
    /// while it follows some incident.
    pub fn cameras(&self) -> (c: &Vec<Camera>)
        ensures
            camera_views(c@) == self@.cameras,
            spec_cameras_consistent(self@.cameras),
    {
        proof { use_type_invariant(self); }
        &self.cameras
    }

    /// The active incident with the identifier, if any.
    pub fn active_incident(&self, incident_id: &String) -> (res: Option<&Incident>)
        ensures
            self@.active_incidents.contains_key(incident_id@) ==>
                (res matches Some(i) && i@ == self@.active_incidents[incident_id@]),
            !self@.active_incidents.contains_key(incident_id@) ==> res is None,
    {
        self.active_incidents.get(incident_id)
    }

    /// Opens an incident: every camera near it (`near[i]` for the `i`-th
    /// camera) follows it, and it is recorded as active.
    pub fn new_incident(&mut self, incident: Incident, near: &Vec<bool>)
        requires
            near@.len() == old(self)@.cameras.len(),
            forall|i: int| 0 <= i < near@.len() && near@[i] ==> old(self)@.cameras[i].active_incidents < usize::MAX,
        ensures
            final(self)@ == spec_open_incident(old(self)@, incident@, near@),
            spec_cameras_consistent(final(self)@.cameras),
    {
        proof { use_type_invariant(&*self); }
        let incident_id = incident.uuid.clone();
        let ghost v = incident@;
        let mut cameras: Vec<Camera> = Vec::new();
        std::mem::swap(&mut cameras, &mut self.cameras);
        let mut i: usize = 0;
        while i < cameras.len()
            invariant
                near@.len() == old(self)@.cameras.len(),
                cameras@.len() == old(self).cameras@.len(),
                i <= cameras@.len(),
                forall|j: int| 0 <= j < near@.len() && near@[j] ==> old(self)@.cameras[j].active_incidents < usize::MAX,
                spec_cameras_consistent(old(self)@.cameras),
                forall|j: int| 0 <= j < i ==> #[trigger] cameras@[j]@ == spec_cameras_follow(old(self)@.cameras, near@)[j],
                forall|j: int| 0 <= j < i ==> spec_camera_consistent(#[trigger] cameras@[j]@),
                forall|j: int| i <= j < cameras@.len() ==> #[trigger] cameras@[j] == old(self).cameras@[j],
                self.active_incidents == old(self).active_incidents,
            decreases cameras.len() - i,
        {
            let mut camera = cameras[i];
            assert(camera@ == old(self)@.cameras[i as int]);
            if near[i] {
                camera.follow_incident();
                cameras.set(i, camera);
            }
            i = i + 1;
        }
        assert(camera_views(cameras@) =~= spec_cameras_follow(old(self)@.cameras, near@));
        self.cameras = cameras;
        let mut active_incidents = StringMap::new();
        std::mem::swap(&mut active_incidents, &mut self.active_incidents);
        active_incidents.insert(incident_id, incident);
        self.active_incidents = active_incidents;
        assert(self@.active_incidents =~= old(self)@.active_incidents.insert(v.uuid, v));
    }

    /// Closes an active incident: every camera near it (`near[i]` for the
    /// `i`-th camera) stops following it, and it is no longer active.
    pub fn close_incident(&mut self, incident_id: &String, near: &Vec<bool>)
        requires
            old(self)@.active_incidents.contains_key(incident_id@),
            near@.len() == old(self)@.cameras.len(),
            forall|i: int| 0 <= i < near@.len() && near@[i] ==> old(self)@.cameras[i].active_incidents > 0,
        ensures
            final(self)@ == spec_close_incident(old(self)@, incident_id@, near@),
            spec_cameras_consistent(final(self)@.cameras),
    {
        proof { use_type_invariant(&*self); }
        let mut cameras: Vec<Camera> = Vec::new();
        std::mem::swap(&mut cameras, &mut self.cameras);
        let mut i: usize = 0;
        while i < cameras.len()
            invariant
                near@.len() == old(self)@.cameras.len(),
                cameras@.len() == old(self).cameras@.len(),
                i <= cameras@.len(),
                forall|j: int| 0 <= j < near@.len() && near@[j] ==> old(self)@.cameras[j].active_incidents > 0,
                spec_cameras_consistent(old(self)@.cameras),
                forall|j: int| 0 <= j < i ==> #[trigger] cameras@[j]@ == spec_cameras_unfollow(old(self)@.cameras, near@)[j],
                forall|j: int| 0 <= j < i ==> spec_camera_consistent(#[trigger] cameras@[j]@),
                forall|j: int| i <= j < cameras@.len() ==> #[trigger] cameras@[j] == old(self).cameras@[j],
                self.active_incidents == old(self).active_incidents,
            decreases cameras.len() - i,
        {
            let mut camera = cameras[i];
            assert(camera@ == old(self)@.cameras[i as int]);
            if near[i] {
                camera.unfollow_incident();
                cameras.set(i, camera);
            }
            i = i + 1;
        }
        assert(camera_views(cameras@) =~= spec_cameras_unfollow(old(self)@.cameras, near@));
        self.cameras = cameras;
        let mut active_incidents = StringMap::new();
        std::mem::swap(&mut active_incidents, &mut self.active_incidents);
        let _ = active_incidents.remove(incident_id);
        self.active_incidents = active_incidents;
        assert(self@.active_incidents =~= old(self)@.active_incidents.remove(incident_id@));
    }
}

/// Closing an incident with the same cameras near it as when it opened puts
/// every camera back as it was, when every camera is active exactly while it
/// follows incidents.
pub proof fn lemma_close_undoes_open(cameras: Seq<CameraView>, near: Seq<bool>)
    requires
        near.len() == cameras.len(),
        forall|i: int| 0 <= i < cameras.len() ==> spec_camera_consistent(#[trigger] cameras[i]),
    ensures
        spec_cameras_unfollow(spec_cameras_follow(cameras, near), near) == cameras,
{
    assert forall|i: int| 0 <= i < cameras.len() implies
        #[trigger] spec_cameras_unfollow(spec_cameras_follow(cameras, near), near)[i] == cameras[i] by {
        lemma_follow_unfollow(cameras[i]);
    }
    assert(spec_cameras_unfollow(spec_cameras_follow(cameras, near), near) =~= cameras);
}

/// Closing an incident that was not active before it opened, with the same
/// cameras near it, gives the camera system back as it was before the
/// opening: every camera as it was, and the incident no longer active.
/// Every camera system meets the consistency this asks of its cameras.
pub proof fn lemma_close_undoes_open_incident(s: CameraSystemView, incident: IncidentView, near: Seq<bool>)
    requires
        near.len() == s.cameras.len(),
        spec_cameras_consistent(s.cameras),
        !s.active_incidents.contains_key(incident.uuid),
    ensures
        spec_close_incident(spec_open_incident(s, incident, near), incident.uuid, near) == s,
{
    lemma_close_undoes_open(s.cameras, near);
    assert(s.active_incidents.insert(incident.uuid, incident).remove(incident.uuid) =~= s.active_incidents);
}

/// The number of follows less the number of unfollows in a series of calls
/// on a camera (`true` for `follow_incident`, `false` for
/// `unfollow_incident`).
pub open spec fn spec_follow_balance(calls: Seq<bool>) -> int
    decreases calls.len(),
{
    if calls.len() == 0 {
        0
    } else {
        spec_follow_balance(calls.drop_last()) + if calls.last() { 1int } else { -1int }
    }
}

/// A camera after a series of follows and unfollows, in order.
pub open spec fn spec_camera_after_calls(c: CameraView, calls: Seq<bool>) -> CameraView
    decreases calls.len(),
{
    if calls.len() == 0 {
        c
    } else if calls.last() {
        spec_follow(spec_camera_after_calls(c, calls.drop_last()))
    } else {
        spec_unfollow(spec_camera_after_calls(c, calls.drop_last()))
    }
}

/// A new camera, followed and unfollowed in any order such that no prefix
/// of the calls holds more unfollows than follows (an unfollow needs an
/// incident followed), follows as many incidents as there were follows more
/// than unfollows, is active exactly while that number is above zero, and
/// keeps its identifier and coordinates.
pub proof fn lemma_follow_unfollow_calls(id: u8, x_coordinate: u64, y_coordinate: u64, calls: Seq<bool>)
    requires
        forall|k: int| 0 <= k <= calls.len() ==> spec_follow_balance(#[trigger] calls.take(k)) >= 0,
    ensures
        ({
            let c = spec_camera_after_calls(
                CameraView { id, x_coordinate, y_coordinate, status: CameraStatus::Sleep, active_incidents: 0 },
                calls,
            );
            &&& c.active_incidents == spec_follow_balance(calls)
            &&& (c.status == CameraStatus::Active) == (spec_follow_balance(calls) > 0)
            &&& c.id == id && c.x_coordinate == x_coordinate && c.y_coordinate == y_coordinate
        }),
    decreases calls.len(),
{
    if calls.len() > 0 {
        let prefix = calls.drop_last();
        assert forall|k: int| 0 <= k <= prefix.len() implies spec_follow_balance(#[trigger] prefix.take(k)) >= 0 by {
            assert(prefix.take(k) =~= calls.take(k));
        }
        lemma_follow_unfollow_calls(id, x_coordinate, y_coordinate, prefix);
        assert(calls.take(calls.len() as int) =~= calls);
        assert(calls.take(prefix.len() as int) =~= prefix);
    }
}

} // verus!
