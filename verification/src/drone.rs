//! A drone's state: where it is going, its battery, the incident it attends
//! and the incidents waiting for it; and the decisions its client takes on
//! the messages it receives.

pub mod client;

use vstd::prelude::*;

use crate::error::Error;
use crate::incident::{Incident, IncidentView};

verus! {

/// Below this battery level a drone takes no new incident and goes to charge.
pub const MINIMUM_BATTERY_LEVEL: usize = 20;

/// A full battery.
pub const MAXIMUM_BATTERY_LEVEL: usize = 100;

/// What one step of travel, or of charging, changes in the battery.
pub const BATTERY_UNIT: usize = 1;

/// What can go wrong in a drone's client.
#[derive(Debug)]
pub enum ClientDroneError {
    InvalidMessage,
    InvalidIncident,
    PoisonedLock,
    MqttError(Error),
    ArgumentError(String),
    /// An input or output failure, by its description.
    Io(String),
}

/// Where a travelling drone is going.
#[derive(Debug, Clone, Copy, PartialEq, Eq, Structural)]
pub enum TravelLocation {
    Central,
    Anchor,
    Incident,
}

/// What a drone is doing.
#[derive(Debug, Clone, Copy, PartialEq, Eq, Structural)]
pub enum DroneStatus {
    Free,
    Travelling(TravelLocation),
    AttendingIncident,
    Recharging,
}

/// The one-character code of a status in the drone's data record.
pub open spec fn spec_drone_status_code(status: DroneStatus) -> Seq<char> {
    match status {
        DroneStatus::Free => seq!['0'],
        DroneStatus::AttendingIncident => seq!['1'],
        DroneStatus::Travelling(TravelLocation::Central) => seq!['2'],
        DroneStatus::Travelling(TravelLocation::Anchor) => seq!['3'],
        DroneStatus::Travelling(TravelLocation::Incident) => seq!['4'],
        DroneStatus::Recharging => seq!['5'],
    }
}

impl DroneStatus {
    /// The status's code in the drone's data record.
    pub fn to_string(&self) -> (code: String)
        ensures
            code@ == spec_drone_status_code(*self),
    {
        proof {
            reveal_strlit("0");
            reveal_strlit("1");
            reveal_strlit("2");
            reveal_strlit("3");
            reveal_strlit("4");
            reveal_strlit("5");
        }
        match self {
            DroneStatus::Free => "0".to_owned(),
            DroneStatus::AttendingIncident => "1".to_owned(),
            DroneStatus::Travelling(TravelLocation::Central) => "2".to_owned(),
            DroneStatus::Travelling(TravelLocation::Anchor) => "3".to_owned(),
            DroneStatus::Travelling(TravelLocation::Incident) => "4".to_owned(),
            DroneStatus::Recharging => "5".to_owned(),
        }
    }
}

/// A drone as the specifications see it. Coordinates, velocity and range are
/// the bit patterns of their IEEE-754 double-precision values.
pub struct DroneView {
    pub id: u8,
    pub x_coordinate: u64,
    pub y_coordinate: u64,
    pub status: DroneStatus,
    pub battery: nat,
    pub x_central: u64,
    pub y_central: u64,
    pub x_anchor: u64,
    pub y_anchor: u64,
    pub current_incident: Option<(IncidentView, nat)>,
    pub incident_queue: Seq<IncidentView>,
    pub velocity: u64,
    pub active_range: u64,
}

/// A drone. Its coordinates, its velocity and its range are carried as the
/// bit patterns of their IEEE-754 double-precision values; the geometry on
/// them is done by whoever moves the drone.
#[derive(Debug, Clone)]
pub struct Drone {
    id: u8,
    x_coordinate: u64,
    y_coordinate: u64,
    status: DroneStatus,
    battery: usize,
    x_central: u64,
    y_central: u64,
    x_anchor: u64,
    y_anchor: u64,
    current_incident: Option<(Incident, usize)>,
    incident_queue: std::collections::VecDeque<Incident>,
    velocity: u64,
    active_range: u64,
}

/// The incident a drone attends and the number of other drones it has heard
/// of at it, as the specifications see them.
pub open spec fn attending_view(current: Option<(Incident, usize)>) -> Option<(IncidentView, nat)> {
    match current {
        Some((i, c)) => Some((i@, c as nat)),
        None => None,
    }
}

/// The views of a list of incidents.
pub open spec fn incident_views(s: Seq<Incident>) -> Seq<IncidentView> {
    Seq::new(s.len(), |k: int| s[k]@)
}

/// What a drone does with a new incident.
#[derive(Debug, Clone, Copy, PartialEq, Eq, Structural)]
pub enum NewIncidentDecision {
    /// Its battery is below the minimum level.
    BatteryBelowMinimum,
    /// The incident is outside the area it covers.
    OutOfRange,
    /// It is busy: neither free nor on its way back to its anchor.
    NotFree,
    /// It takes the incident and travels to it.
    Accepted,
}

/// What a drone does when it hears that a drone is attending an incident.
#[derive(Debug, Clone, Copy, PartialEq, Eq, Structural)]
pub enum AttendingDecision {
    /// It attends no incident: it ignores the message.
    NoIncident,
    /// It is already at its incident: it follows the incident's closing and
    /// stops following who attends it.
    FollowClosing,
    /// It is on its way and counts the first drone it hears of.
    CountFirst,
    /// It is on its way and hears of a second drone: the incident gets
    /// resolved and it stops following the incident's closing.
    ResolveTogether,
    /// It has already heard of more drones: nothing to do.
    Ignore,
}

/// What a drone decides on a new incident, given whether the incident lies
/// within its range.
pub open spec fn spec_new_incident_decision(d: DroneView, within_range: bool) -> NewIncidentDecision {
    if d.battery < MINIMUM_BATTERY_LEVEL {
        NewIncidentDecision::BatteryBelowMinimum
    } else if !within_range {
        NewIncidentDecision::OutOfRange
    } else if !(d.status == DroneStatus::Free || d.status == DroneStatus::Travelling(TravelLocation::Anchor)) {
        NewIncidentDecision::NotFree
    } else {
        NewIncidentDecision::Accepted
    }
}

/// What a drone decides when it hears that a drone attends an incident.
pub open spec fn spec_attending_decision(d: DroneView) -> AttendingDecision {
    match d.current_incident {
        None => AttendingDecision::NoIncident,
        Some((_, count)) => if d.status == DroneStatus::AttendingIncident {
            AttendingDecision::FollowClosing
        } else if count == 0 {
            AttendingDecision::CountFirst
        } else if count == 1 {
            AttendingDecision::ResolveTogether
        } else {
            AttendingDecision::Ignore
        },
    }
}

/// A call that changes a drone's incidents: `add_incident` (`Add`),
/// `remove_current_incident` (`RemoveCurrent`) or `set_incident` (`Assign`).
pub enum IncidentCall {
    Add(IncidentView),
    RemoveCurrent,
    Assign(Option<IncidentView>),
}

/// The drone after one such call: an added incident goes to the back of the
/// queue, removing drops the front (if there is one), and setting replaces
/// the incident the drone attends, with no drone heard of at it yet.
pub open spec fn spec_after_call(d: DroneView, call: IncidentCall) -> DroneView {
    match call {
        IncidentCall::Add(i) => DroneView { incident_queue: d.incident_queue.push(i), ..d },
        IncidentCall::RemoveCurrent => DroneView {
            incident_queue: if d.incident_queue.len() > 0 {
                d.incident_queue.drop_first()
            } else {
                d.incident_queue
            },
            ..d
        },
        IncidentCall::Assign(incident) => DroneView {
            current_incident: match incident {
                Some(i) => Some((i, 0nat)),
                None => None,
            },
            ..d
        },
    }
}

/// The drone after a series of such calls, in order.
pub open spec fn spec_after_calls(d: DroneView, calls: Seq<IncidentCall>) -> DroneView
    decreases calls.len(),
{
    if calls.len() == 0 {
        d
    } else {
        spec_after_call(spec_after_calls(d, calls.drop_last()), calls.last())
    }
}

/// The calls of a series that touch the queue, in order: all but `Assign`.
pub open spec fn spec_queue_calls(calls: Seq<IncidentCall>) -> Seq<IncidentCall>
    decreases calls.len(),
{
    if calls.len() == 0 {
        Seq::empty()
    } else if calls.last() is Assign {
        spec_queue_calls(calls.drop_last())
    } else {
        spec_queue_calls(calls.drop_last()).push(calls.last())
    }
}

/// Adding each of `added` in order, then removing `removals` times.
pub open spec fn spec_adds_then_removals(added: Seq<IncidentView>, removals: nat) -> Seq<IncidentCall> {
    added.map_values(|i: IncidentView| IncidentCall::Add(i))
        + Seq::new(removals, |j: int| IncidentCall::RemoveCurrent)
}

/// Where a drone's charging cycle stands.
#[derive(Debug, Clone, Copy, PartialEq, Eq, Structural)]
pub enum RechargePhase {
    /// Watching the battery.
    Watching,
    /// On its way to the central point to charge.
    ToCentral,
    /// Charging at the central point.
    Charging,
    /// On its way back to its anchor, charged.
    ToAnchor,
}

/// What the charging cycle asks its runner to do before the next step.
#[derive(Debug, Clone, Copy, PartialEq, Eq, Structural)]
pub enum RechargeAction {
    /// Wait one battery-check interval.
    WaitAndCheck,
    /// Travel to the point (bit patterns of its coordinates) as a journey to
    /// the location.
    TravelTo(TravelLocation, u64, u64),
    /// Wait one charging interval.
    WaitCharging,
}

/// While watching: a free drone below the minimum goes to the central point
/// to charge; otherwise it waits and looks again.
pub open spec fn spec_watch_battery(d: DroneView) -> (RechargePhase, RechargeAction) {
    if d.battery < MINIMUM_BATTERY_LEVEL && d.status == DroneStatus::Free {
        (RechargePhase::ToCentral, RechargeAction::TravelTo(TravelLocation::Central, d.x_central, d.y_central))
    } else {
        (RechargePhase::Watching, RechargeAction::WaitAndCheck)
    }
}

/// One charging step: one unit more; once full the drone goes back to its
/// anchor, otherwise it waits and charges again.
pub open spec fn spec_charge_once(d: DroneView) -> (DroneView, RechargePhase, RechargeAction) {
    let charged = DroneView { battery: spec_recharged(d.battery), ..d };
    if charged.battery == MAXIMUM_BATTERY_LEVEL {
        (charged, RechargePhase::ToAnchor, RechargeAction::TravelTo(TravelLocation::Anchor, d.x_anchor, d.y_anchor))
    } else {
        (charged, RechargePhase::Charging, RechargeAction::WaitCharging)
    }
}

/// A step of the charging cycle, taken when the previous action is done: on
/// reaching the central point the drone is recharging and charges; while
/// charging it charges; back at its anchor it is free again and watches.
pub open spec fn spec_recharge_step(d: DroneView, phase: RechargePhase) -> (DroneView, RechargePhase, RechargeAction) {
    match phase {
        RechargePhase::Watching => (d, spec_watch_battery(d).0, spec_watch_battery(d).1),
        RechargePhase::ToCentral => spec_charge_once(DroneView { status: DroneStatus::Recharging, ..d }),
        RechargePhase::Charging => spec_charge_once(d),
        RechargePhase::ToAnchor => {
            let free = DroneView { status: DroneStatus::Free, ..d };
            (free, spec_watch_battery(free).0, spec_watch_battery(free).1)
        },
    }
}

/// One unit of battery less, unless it is empty.
pub open spec fn spec_discharged(battery: nat) -> nat {
    if battery > 0 { (battery - BATTERY_UNIT) as nat } else { 0 }
}

/// One unit of battery more, unless it is full.
pub open spec fn spec_recharged(battery: nat) -> nat {
    if battery < MAXIMUM_BATTERY_LEVEL { (battery + BATTERY_UNIT) as nat } else { battery }
}

impl View for Drone {
    type V = DroneView;

    closed spec fn view(&self) -> DroneView {
        DroneView {
            id: self.id,
            x_coordinate: self.x_coordinate,
            y_coordinate: self.y_coordinate,
            status: self.status,
            battery: self.battery as nat,
            x_central: self.x_central,
            y_central: self.y_central,
            x_anchor: self.x_anchor,
            y_anchor: self.y_anchor,
            current_incident: attending_view(self.current_incident),
            incident_queue: incident_views(self.incident_queue@),
            velocity: self.velocity,
            active_range: self.active_range,
        }
    }
}

impl Drone {
    /// A drone at its anchor point, free, fully charged, with no incident.
    pub fn new(
        id: u8,
        x_central: u64,
        y_central: u64,
        x_anchor: u64,
        y_anchor: u64,
        velocity: u64,
        active_range: u64,
    ) -> (d: Drone)
        ensures
            d@ == (DroneView {
                id,
                x_coordinate: x_anchor,
                y_coordinate: y_anchor,
                status: DroneStatus::Free,
                battery: MAXIMUM_BATTERY_LEVEL as nat,
                x_central,
                y_central,
                x_anchor,
                y_anchor,
                current_incident: None,
                incident_queue: Seq::empty(),
                velocity,
                active_range,
            }),
    {
        let d = Drone {
            id,
            x_coordinate: x_anchor,
            y_coordinate: y_anchor,
            status: DroneStatus::Free,
            battery: MAXIMUM_BATTERY_LEVEL,
            x_central,
            y_central,
            x_anchor,
            y_anchor,
            current_incident: None,
            incident_queue: std::collections::VecDeque::new(),
            velocity,
            active_range,
        };
        assert(d@.incident_queue =~= Seq::<IncidentView>::empty());
        d
    }

    pub fn id(&self) -> (id: u8)
        ensures
            id == self@.id,
    {
        self.id
    }

    /// The battery level, from 0 to 100.
    pub fn battery(&self) -> (b: usize)
        ensures
            b == self@.battery,
    {
        self.battery
    }

    /// Whether the battery is below the minimum level.
    pub fn is_below_minimun(&self) -> (b: bool)
        ensures
            b == (self@.battery < MINIMUM_BATTERY_LEVEL),
    {
        self.battery < MINIMUM_BATTERY_LEVEL
    }

    pub fn set_status(&mut self, status: DroneStatus)
        ensures
            final(self)@ == (DroneView { status, ..old(self)@ }),
    {
        self.status = status;
    }

    pub fn status(&self) -> (s: DroneStatus)
        ensures
            s == self@.status,
    {
        self.status
    }

    pub fn x_coordinate(&self) -> (x: u64)
        ensures
            x == self@.x_coordinate,
    {
        self.x_coordinate
    }

    pub fn y_coordinate(&self) -> (y: u64)
        ensures
            y == self@.y_coordinate,
    {
        self.y_coordinate
    }

    /// Moves the drone to a position.
    pub fn set_position(&mut self, x_coordinate: u64, y_coordinate: u64)
        ensures
            final(self)@ == (DroneView { x_coordinate, y_coordinate, ..old(self)@ }),
    {
        self.x_coordinate = x_coordinate;
        self.y_coordinate = y_coordinate;
    }

    pub fn x_central_coordinate(&self) -> (x: u64)
        ensures
            x == self@.x_central,
    {
        self.x_central
    }

    pub fn y_central_coordinate(&self) -> (y: u64)
        ensures
            y == self@.y_central,
    {
        self.y_central
    }

    pub fn x_anchor_coordinate(&self) -> (x: u64)
        ensures
            x == self@.x_anchor,
    {
        self.x_anchor
    }

    pub fn y_anchor_coordinate(&self) -> (y: u64)
        ensures
            y == self@.y_anchor,
    {
        self.y_anchor
    }

    /// The distance the drone covers in one step.
    pub fn velocity(&self) -> (v: u64)
        ensures
            v == self@.velocity,
    {
        self.velocity
    }

    /// The radius around its anchor in which the drone takes incidents.
    pub fn active_range(&self) -> (r: u64)
        ensures
            r == self@.active_range,
    {
        self.active_range
    }

    /// Uses one unit of battery, unless it is empty.
    pub fn discharge_battery(&mut self)
        ensures
            final(self)@ == (DroneView { battery: spec_discharged(old(self)@.battery), ..old(self)@ }),
    {
        if self.battery > 0 {
            self.battery = self.battery - BATTERY_UNIT;
        }
    }

    /// Charges one unit of battery, unless it is full.
    pub fn recharge_battery(&mut self)
        ensures
            final(self)@ == (DroneView { battery: spec_recharged(old(self)@.battery), ..old(self)@ }),
    {
        if self.battery < MAXIMUM_BATTERY_LEVEL {
            self.battery = self.battery + BATTERY_UNIT;
        }
    }

    /// Takes one step of the charging cycle in `phase`, once the action of
    /// the previous step is done; gives the next phase and what to do
    /// before the next step.
    pub fn recharge_step(&mut self, phase: RechargePhase) -> (res: (RechargePhase, RechargeAction))
        ensures
            (final(self)@, res.0, res.1) == spec_recharge_step(old(self)@, phase),
    {
        match phase {
            RechargePhase::Watching => self.watch_battery(),
            RechargePhase::ToCentral => {
                self.set_status(DroneStatus::Recharging);
                self.charge_once()
            },
            RechargePhase::Charging => self.charge_once(),
            RechargePhase::ToAnchor => {
                self.set_status(DroneStatus::Free);
                self.watch_battery()
            },
        }
    }

    fn watch_battery(&self) -> (res: (RechargePhase, RechargeAction))
        ensures
            res == spec_watch_battery(self@),
    {
        if self.needs_recharge() {
            (RechargePhase::ToCentral, RechargeAction::TravelTo(TravelLocation::Central, self.x_central, self.y_central))
        } else {
            (RechargePhase::Watching, RechargeAction::WaitAndCheck)
        }
    }

    fn charge_once(&mut self) -> (res: (RechargePhase, RechargeAction))
        ensures
            (final(self)@, res.0, res.1) == spec_charge_once(old(self)@),
    {
        self.recharge_battery();
        if self.is_fully_charged() {
            (RechargePhase::ToAnchor, RechargeAction::TravelTo(TravelLocation::Anchor, self.x_anchor, self.y_anchor))
        } else {
            (RechargePhase::Charging, RechargeAction::WaitCharging)
        }
    }

    pub fn is_fully_charged(&self) -> (b: bool)
        ensures
            b == (self@.battery == MAXIMUM_BATTERY_LEVEL),
    {
        self.battery == MAXIMUM_BATTERY_LEVEL
    }

    /// Assigns the drone an incident, with no other drone heard of at it yet,
    /// or takes its incident away.
    pub fn set_incident(&mut self, incident: Option<Incident>)
        ensures
            final(self)@ == spec_after_call(old(self)@, IncidentCall::Assign(match incident {
                Some(i) => Some(i@),
                None => None,
            })),
    {
        match incident {
            Some(incident) => {
                self.current_incident = Some((incident, 0));
            },
            None => {
                self.current_incident = None;
            },
        }
    }

    /// Counts one more drone heard of at the drone's incident.
    pub fn increment_attending_counter(&mut self)
        requires
            old(self)@.current_incident matches Some((_, c)) ==> c < usize::MAX,
        ensures
            final(self)@ == (DroneView {
                current_incident: match old(self)@.current_incident {
                    Some((i, c)) => Some((i, c + 1)),
                    None => None,
                },
                ..old(self)@
            }),
    {
        let current = self.current_incident.take();
        match current {
            Some((incident, counter)) => {
                self.current_incident = Some((incident, counter + 1));
            },
            None => {},
        }
    }

    /// The number of drones heard of at the drone's incident; 0 without one.
    pub fn attending_counter(&self) -> (n: usize)
        ensures
            n == match self@.current_incident {
                Some((_, c)) => c,
                None => 0,
            },
    {
        match &self.current_incident {
            Some((_, counter)) => *counter,
            None => 0,
        }
    }

    /// A copy of the incident the drone attends, if any.
    pub fn incident(&self) -> (res: Option<Incident>)
        ensures
            match self@.current_incident {
                Some((i, _)) => res matches Some(r) && r@ == i,
                None => res is None,
            },
    {
        match &self.current_incident {
            Some((incident, _)) => Some(incident.copy()),
            None => None,
        }
    }

    /// Whether the drone is on its way to an incident.
    pub fn is_travelling_to_incident(&self) -> (b: bool)
        ensures
            b == (self@.status == DroneStatus::Travelling(TravelLocation::Incident)),
    {
        self.status == DroneStatus::Travelling(TravelLocation::Incident)
    }

    /// Puts an incident at the back of the queue.
    pub fn add_incident(&mut self, incident: Incident)
        ensures
            final(self)@ == spec_after_call(old(self)@, IncidentCall::Add(incident@)),
    {
        let ghost v = incident@;
        self.incident_queue.push_back(incident);
        assert(self@.incident_queue =~= old(self)@.incident_queue.push(v));
    }

    pub fn has_pending_incidents(&self) -> (b: bool)
        ensures
            b == (self@.incident_queue.len() > 0),
    {
        self.incident_queue.len() != 0
    }

    /// A copy of the incident at the front of the queue, if any.
    pub fn current_incident(&self) -> (res: Option<Incident>)
        ensures
            self@.incident_queue.len() > 0 ==> (res matches Some(r) && r@ == self@.incident_queue[0]),
            self@.incident_queue.len() == 0 ==> res is None,
    {
        if self.incident_queue.len() == 0 {
            None
        } else {
            Some(self.incident_queue[0].copy())
        }
    }

    /// Drops the incident at the front of the queue, if any.
    pub fn remove_current_incident(&mut self)
        ensures
            final(self)@ == spec_after_call(old(self)@, IncidentCall::RemoveCurrent),
    {
        let _ = self.incident_queue.pop_front();
        assert(self@.incident_queue =~= if old(self)@.incident_queue.len() > 0 {
            old(self)@.incident_queue.drop_first()
        } else {
            old(self)@.incident_queue
        });
    }

    /// Whether the drone may take a new incident: it is free, or on its way
    /// back to its anchor.
    pub fn can_handle_new_incident(&self) -> (b: bool)
        ensures
            b == (self@.status == DroneStatus::Free || self@.status == DroneStatus::Travelling(TravelLocation::Anchor)),
    {
        self.status == DroneStatus::Free || self.status == DroneStatus::Travelling(TravelLocation::Anchor)
    }

    /// Decides on a new incident: a drone whose battery is not below the
    /// minimum, that covers the incident's place and is free or on its way
    /// back to its anchor takes the incident; otherwise nothing changes.
    pub fn consider_new_incident(&mut self, incident: Incident, within_range: bool) -> (decision: NewIncidentDecision)
        ensures
            decision == spec_new_incident_decision(old(self)@, within_range),
            decision == NewIncidentDecision::Accepted ==>
                final(self)@ == (DroneView { current_incident: Some((incident@, 0nat)), ..old(self)@ }),
            decision != NewIncidentDecision::Accepted ==> final(self)@ == old(self)@,
    {
        if self.is_below_minimun() {
            return NewIncidentDecision::BatteryBelowMinimum;
        }
        if !within_range {
            return NewIncidentDecision::OutOfRange;
        }
        if !self.can_handle_new_incident() {
            return NewIncidentDecision::NotFree;
        }
        self.set_incident(Some(incident));
        NewIncidentDecision::Accepted
    }

    /// Ends a journey to an incident: a drone still travelling to it now
    /// attends it; one whose journey was cut short drops the incident.
    pub fn finish_travel_to_incident(&mut self) -> (arrived: bool)
        ensures
            arrived == (old(self)@.status == DroneStatus::Travelling(TravelLocation::Incident)),
            arrived ==> final(self)@ == (DroneView { status: DroneStatus::AttendingIncident, ..old(self)@ }),
            !arrived ==> final(self)@ == (DroneView { current_incident: None, ..old(self)@ }),
    {
        if self.is_travelling_to_incident() {
            self.set_status(DroneStatus::AttendingIncident);
            true
        } else {
            self.set_incident(None);
            false
        }
    }

    /// Decides what to do on hearing that a drone attends an incident; only
    /// the first drone heard of is counted.
    pub fn hear_attending_incident(&mut self) -> (decision: AttendingDecision)
        ensures
            decision == spec_attending_decision(old(self)@),
            decision == AttendingDecision::CountFirst ==> final(self)@ == (DroneView {
                current_incident: match old(self)@.current_incident {
                    Some((i, _)) => Some((i, 1nat)),
                    None => None,
                },
                ..old(self)@
            }),
            decision != AttendingDecision::CountFirst ==> final(self)@ == old(self)@,
    {
        if self.current_incident.is_none() {
            return AttendingDecision::NoIncident;
        }
        if self.status == DroneStatus::AttendingIncident {
            return AttendingDecision::FollowClosing;
        }
        let count = self.attending_counter();
        if count == 0 {
            self.increment_attending_counter();
            AttendingDecision::CountFirst
        } else if count == 1 {
            AttendingDecision::ResolveTogether
        } else {
            AttendingDecision::Ignore
        }
    }

    /// Closes the drone's incident when the closing names it: the drone then
    /// attends no incident. Any other closing changes nothing.
    pub fn close_incident(&mut self, closing_incident_uuid: &String) -> (closed: bool)
        ensures
            closed == (old(self)@.current_incident matches Some((i, _)) && i.uuid == closing_incident_uuid@),
            closed ==> final(self)@ == (DroneView { current_incident: None, ..old(self)@ }),
            !closed ==> final(self)@ == old(self)@,
    {
        let matches = match &self.current_incident {
            Some((incident, _)) => incident.uuid == *closing_incident_uuid,
            None => false,
        };
        if matches {
            self.set_incident(None);
        }
        matches
    }

    /// Whether the drone must go and charge: its battery is below the
    /// minimum and it is free.
    pub fn needs_recharge(&self) -> (b: bool)
        ensures
            b == (self@.battery < MINIMUM_BATTERY_LEVEL && self@.status == DroneStatus::Free),
    {
        self.is_below_minimun() && self.status == DroneStatus::Free
    }

    /// Whether a journey goes on: the destination is not reached and the
    /// drone is still travelling to it (its status was not changed meanwhile).
    pub fn keep_travelling(&self, arrived: bool, destination: TravelLocation) -> (b: bool)
        ensures
            b == (!arrived && self@.status == DroneStatus::Travelling(destination)),
    {
        !arrived && self.status == DroneStatus::Travelling(destination)
    }
}

/// The battery never leaves its range: discharging and recharging keep it
/// between empty and full.
pub proof fn lemma_battery_stays_in_range(battery: nat)
    requires
        battery <= MAXIMUM_BATTERY_LEVEL,
    ensures
        spec_discharged(battery) <= MAXIMUM_BATTERY_LEVEL,
        spec_recharged(battery) <= MAXIMUM_BATTERY_LEVEL,
        spec_recharged(battery) >= battery,
        spec_discharged(battery) <= battery,
{
}

/// A drone takes an incident only with enough battery, within its range,
/// while free or going back to its anchor.
pub proof fn lemma_accepted_incident_conditions(d: DroneView, within_range: bool)
    requires
        spec_new_incident_decision(d, within_range) == NewIncidentDecision::Accepted,
    ensures
        d.battery >= MINIMUM_BATTERY_LEVEL,
        within_range,
        d.status == DroneStatus::Free || d.status == DroneStatus::Travelling(TravelLocation::Anchor),
{
}

/// Running two series of calls one after the other is running them joined.
pub proof fn lemma_after_calls_joined(d: DroneView, first: Seq<IncidentCall>, second: Seq<IncidentCall>)
    ensures
        spec_after_calls(d, first + second) == spec_after_calls(spec_after_calls(d, first), second),
    decreases second.len(),
{
    if second.len() == 0 {
        assert(first + second =~= first);
    } else {
        assert((first + second).drop_last() =~= first + second.drop_last());
        lemma_after_calls_joined(d, first, second.drop_last());
    }
}

/// `Assign` calls touch nothing but the incident attended: with them left out,
/// a series of calls leaves the drone just as it is otherwise.
pub proof fn lemma_assign_calls_leave_queue(d: DroneView, calls: Seq<IncidentCall>)
    ensures
        spec_after_calls(d, calls) == (DroneView {
            current_incident: spec_after_calls(d, calls).current_incident,
            ..spec_after_calls(d, spec_queue_calls(calls))
        }),
    decreases calls.len(),
{
    if calls.len() > 0 {
        lemma_assign_calls_leave_queue(d, calls.drop_last());
        let q = spec_queue_calls(calls.drop_last());
        if !(calls.last() is Assign) {
            assert(q.push(calls.last()).drop_last() =~= q);
        }
    }
}

proof fn lemma_after_adds(d: DroneView, added: Seq<IncidentView>)
    ensures
        spec_after_calls(d, added.map_values(|i: IncidentView| IncidentCall::Add(i)))
            == (DroneView { incident_queue: d.incident_queue + added, ..d }),
    decreases added.len(),
{
    let calls = added.map_values(|i: IncidentView| IncidentCall::Add(i));
    if added.len() == 0 {
        assert(d.incident_queue + added =~= d.incident_queue);
    } else {
        assert(calls.drop_last() =~= added.drop_last().map_values(|i: IncidentView| IncidentCall::Add(i)));
        lemma_after_adds(d, added.drop_last());
        assert((d.incident_queue + added.drop_last()).push(added.last()) =~= d.incident_queue + added);
    }
}

proof fn lemma_after_removals(d: DroneView, removals: nat)
    ensures
        spec_after_calls(d, Seq::new(removals, |j: int| IncidentCall::RemoveCurrent)) == (DroneView {
            incident_queue: d.incident_queue.skip(
                if removals < d.incident_queue.len() { removals as int } else { d.incident_queue.len() as int },
            ),
            ..d
        }),
    decreases removals,
{
    let q = d.incident_queue;
    if removals == 0 {
        assert(q.skip(0) =~= q);
    } else {
        let calls = Seq::new(removals, |j: int| IncidentCall::RemoveCurrent);
        assert(calls.drop_last() =~= Seq::new((removals - 1) as nat, |j: int| IncidentCall::RemoveCurrent));
        lemma_after_removals(d, (removals - 1) as nat);
        if removals - 1 < q.len() {
            assert(q.skip(removals - 1).drop_first() =~= q.skip(removals as int));
        }
    }
}

/// The incidents wait first in, first out. From a drone with no incident
/// waiting, whose calls on its queue are the additions of `added` in order
/// and then `removals` removals (with any `set_incident` calls among them),
/// the incidents still waiting are those added after the first `removals`,
/// so the one in front is the next added one, and none waits once every
/// added one was removed; removing from an empty queue changes nothing.
/// Nothing of the drone but its queue and the incident it attends changes.
pub proof fn lemma_incident_queue_first_in_first_out(
    d: DroneView,
    calls: Seq<IncidentCall>,
    added: Seq<IncidentView>,
    removals: nat,
)
    requires
        d.incident_queue.len() == 0,
        spec_queue_calls(calls) == spec_adds_then_removals(added, removals),
    ensures
        spec_after_calls(d, calls).incident_queue
            == added.skip(if removals < added.len() { removals as int } else { added.len() as int }),
        spec_after_calls(d, calls).incident_queue.len() > 0 <==> removals < added.len(),
        removals < added.len() ==> spec_after_calls(d, calls).incident_queue[0] == added[removals as int],
        spec_after_calls(d, calls) == (DroneView {
            current_incident: spec_after_calls(d, calls).current_incident,
            incident_queue: spec_after_calls(d, calls).incident_queue,
            ..d
        }),
{
    let adds = added.map_values(|i: IncidentView| IncidentCall::Add(i));
    let rems = Seq::new(removals, |j: int| IncidentCall::RemoveCurrent);
    lemma_assign_calls_leave_queue(d, calls);
    lemma_after_calls_joined(d, adds, rems);
    lemma_after_adds(d, added);
    let mid = DroneView { incident_queue: d.incident_queue + added, ..d };
    assert(d.incident_queue + added =~= added);
    lemma_after_removals(mid, removals);
}

/// The charging cycle goes round in order: watching, to the central point,
/// charging, back to the anchor, watching. It leaves for the central point
/// only when the drone is free and below the minimum, charges without ever
/// losing battery, leaves for its anchor only once the battery is full, and
/// frees the drone there. Nothing of the drone but its status and battery
/// changes.
pub proof fn lemma_recharge_cycle_order(d: DroneView, phase: RechargePhase)
    requires
        d.battery <= MAXIMUM_BATTERY_LEVEL,
    ensures
        ({
            let (e, next, action) = spec_recharge_step(d, phase);
            &&& e.battery <= MAXIMUM_BATTERY_LEVEL
            &&& e == (DroneView { status: e.status, battery: e.battery, ..d })
            &&& phase == RechargePhase::Watching ==> e == d
                && (next == RechargePhase::Watching || next == RechargePhase::ToCentral)
            &&& (phase == RechargePhase::ToCentral || phase == RechargePhase::Charging) ==>
                e.status == DroneStatus::Recharging || (phase == RechargePhase::Charging && e.status == d.status)
            &&& (phase == RechargePhase::ToCentral || phase == RechargePhase::Charging) ==>
                e.battery >= d.battery && (next == RechargePhase::Charging || next == RechargePhase::ToAnchor)
            &&& phase == RechargePhase::ToAnchor ==> e.status == DroneStatus::Free && e.battery == d.battery
                && (next == RechargePhase::Watching || next == RechargePhase::ToCentral)
            &&& next == RechargePhase::ToCentral ==> d.battery < MINIMUM_BATTERY_LEVEL && e.status == DroneStatus::Free
                && action == RechargeAction::TravelTo(TravelLocation::Central, d.x_central, d.y_central)
            &&& next == RechargePhase::ToAnchor ==> e.battery == MAXIMUM_BATTERY_LEVEL
                && action == RechargeAction::TravelTo(TravelLocation::Anchor, d.x_anchor, d.y_anchor)
        }),
{
}

/// Charging ends: from any battery level, as many charging steps as units
/// are missing fill the battery.
pub proof fn lemma_charging_fills_the_battery(d: DroneView, steps: nat)
    requires
        d.battery <= MAXIMUM_BATTERY_LEVEL,
        steps == MAXIMUM_BATTERY_LEVEL - d.battery,
    ensures
        spec_charged_times(d.battery, steps) == MAXIMUM_BATTERY_LEVEL,
    decreases steps,
{
    if steps > 0 {
        lemma_charging_fills_the_battery(DroneView { battery: spec_recharged(d.battery), ..d }, (steps - 1) as nat);
    }
}

/// The battery after charging `steps` times.
pub open spec fn spec_charged_times(battery: nat, steps: nat) -> nat
    decreases steps,
{
    if steps == 0 {
        battery
    } else {
        spec_charged_times(spec_recharged(battery), (steps - 1) as nat)
    }
}

/// A drone takes a new incident exactly when its battery is not below the
/// minimum, the incident lies within its range, and it is free or on its way
/// back to its anchor; otherwise the refusal names the first condition that
/// fails, in that order.
pub proof fn lemma_new_incident_decision_exact(d: DroneView, within_range: bool)
    ensures
        (spec_new_incident_decision(d, within_range) == NewIncidentDecision::Accepted) <==> (
            d.battery >= MINIMUM_BATTERY_LEVEL && within_range
                && (d.status == DroneStatus::Free || d.status == DroneStatus::Travelling(TravelLocation::Anchor))),
        d.battery < MINIMUM_BATTERY_LEVEL ==>
            spec_new_incident_decision(d, within_range) == NewIncidentDecision::BatteryBelowMinimum,
        d.battery >= MINIMUM_BATTERY_LEVEL && !within_range ==>
            spec_new_incident_decision(d, within_range) == NewIncidentDecision::OutOfRange,
        d.battery >= MINIMUM_BATTERY_LEVEL && within_range && d.status != DroneStatus::Free
            && d.status != DroneStatus::Travelling(TravelLocation::Anchor) ==>
            spec_new_incident_decision(d, within_range) == NewIncidentDecision::NotFree,
{
}

/// On hearing that a drone attends an incident: a drone without an incident
/// ignores it; a drone already at its incident follows the closing whatever
/// it has counted; a drone on its way counts the first drone, resolves
/// together with the second, and ignores any later one. Only counting the
/// first drone changes the drone (its count goes from 0 to 1).
pub proof fn lemma_attending_decision_exact(d: DroneView)
    ensures
        d.current_incident is None ==> spec_attending_decision(d) == AttendingDecision::NoIncident,
        d.current_incident is Some && d.status == DroneStatus::AttendingIncident ==>
            spec_attending_decision(d) == AttendingDecision::FollowClosing,
        d.status != DroneStatus::AttendingIncident ==> match d.current_incident {
            Some((_, c)) => spec_attending_decision(d) == (if c == 0 {
                AttendingDecision::CountFirst
            } else if c == 1 {
                AttendingDecision::ResolveTogether
            } else {
                AttendingDecision::Ignore
            }),
            None => true,
        },
        (spec_attending_decision(d) == AttendingDecision::CountFirst) <==> (
            d.current_incident is Some && (d.current_incident->0).1 == 0 && d.status != DroneStatus::AttendingIncident),
{
}

/// While watching, or once back at its anchor (where it is freed first), a
/// drone goes to charge exactly when it is free and its battery is below the
/// minimum: it heads for its central point; otherwise it waits and checks
/// again. Watching changes nothing of the drone.
pub proof fn lemma_watch_battery_exact(d: DroneView)
    ensures
        d.battery < MINIMUM_BATTERY_LEVEL && d.status == DroneStatus::Free ==>
            spec_recharge_step(d, RechargePhase::Watching) == (d, RechargePhase::ToCentral,
                RechargeAction::TravelTo(TravelLocation::Central, d.x_central, d.y_central)),
        !(d.battery < MINIMUM_BATTERY_LEVEL && d.status == DroneStatus::Free) ==>
            spec_recharge_step(d, RechargePhase::Watching) == (d, RechargePhase::Watching, RechargeAction::WaitAndCheck),
        d.battery < MINIMUM_BATTERY_LEVEL ==>
            spec_recharge_step(d, RechargePhase::ToAnchor) == (DroneView { status: DroneStatus::Free, ..d },
                RechargePhase::ToCentral, RechargeAction::TravelTo(TravelLocation::Central, d.x_central, d.y_central)),
        d.battery >= MINIMUM_BATTERY_LEVEL ==>
            spec_recharge_step(d, RechargePhase::ToAnchor) == (DroneView { status: DroneStatus::Free, ..d },
                RechargePhase::Watching, RechargeAction::WaitAndCheck),
{
}

} // verus!
