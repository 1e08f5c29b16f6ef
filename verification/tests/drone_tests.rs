use sauron::drone::{
    AttendingDecision, Drone, DroneStatus, NewIncidentDecision, RechargeAction, RechargePhase, TravelLocation,
    MAXIMUM_BATTERY_LEVEL, MINIMUM_BATTERY_LEVEL,
};
use sauron::incident::{Incident, IncidentStatus};

fn bits(x: f64) -> u64 {
    x.to_bits()
}

fn drone() -> Drone {
    Drone::new(1, bits(1.0), bits(1.0), bits(1.0), bits(1.0), bits(1.0), bits(1.0))
}

fn incident(uuid: &str) -> Incident {
    Incident::new(
        uuid.to_string(),
        "fire".to_string(),
        "a fire".to_string(),
        bits(2.0),
        bits(2.0),
        IncidentStatus::Pending,
    )
}

#[test]
fn a_new_drone_is_free_and_full_at_its_anchor() {
    let d = drone();
    assert_eq!(d.id(), 1);
    assert_eq!(d.battery(), MAXIMUM_BATTERY_LEVEL);
    assert_eq!(d.status(), DroneStatus::Free);
    assert_eq!(d.x_coordinate(), bits(1.0));
    assert_eq!(d.y_coordinate(), bits(1.0));
    assert!(d.is_fully_charged());
    assert!(d.incident().is_none());
    assert!(!d.has_pending_incidents());
}

#[test]
fn status_codes() {
    assert_eq!(DroneStatus::Free.to_string(), "0");
    assert_eq!(DroneStatus::AttendingIncident.to_string(), "1");
    assert_eq!(DroneStatus::Travelling(TravelLocation::Central).to_string(), "2");
    assert_eq!(DroneStatus::Travelling(TravelLocation::Anchor).to_string(), "3");
    assert_eq!(DroneStatus::Travelling(TravelLocation::Incident).to_string(), "4");
    assert_eq!(DroneStatus::Recharging.to_string(), "5");
}

#[test]
fn battery_stays_between_empty_and_full() {
    let mut d = drone();
    d.recharge_battery();
    assert_eq!(d.battery(), 100);
    for _ in 0..150 {
        d.discharge_battery();
    }
    assert_eq!(d.battery(), 0);
    d.recharge_battery();
    assert_eq!(d.battery(), 1);
}

#[test]
fn below_minimum_after_enough_travel() {
    let mut d = drone();
    for _ in 0..(MAXIMUM_BATTERY_LEVEL - MINIMUM_BATTERY_LEVEL) {
        d.discharge_battery();
    }
    assert!(!d.is_below_minimun());
    d.discharge_battery();
    assert!(d.is_below_minimun());
    assert!(d.needs_recharge());
    d.set_status(DroneStatus::AttendingIncident);
    assert!(!d.needs_recharge());
}

#[test]
fn a_free_drone_accepts_an_incident_in_range() {
    let mut d = drone();
    let decision = d.consider_new_incident(incident("a"), true);
    assert_eq!(decision, NewIncidentDecision::Accepted);
    assert_eq!(d.incident().unwrap().uuid, "a");
    assert_eq!(d.attending_counter(), 0);
}

#[test]
fn new_incident_refusals() {
    let mut d = drone();
    assert_eq!(d.consider_new_incident(incident("a"), false), NewIncidentDecision::OutOfRange);
    assert!(d.incident().is_none());
    d.set_status(DroneStatus::Recharging);
    assert_eq!(d.consider_new_incident(incident("a"), true), NewIncidentDecision::NotFree);
    d.set_status(DroneStatus::Travelling(TravelLocation::Anchor));
    assert!(d.can_handle_new_incident());
    for _ in 0..90 {
        d.discharge_battery();
    }
    assert_eq!(
        d.consider_new_incident(incident("a"), true),
        NewIncidentDecision::BatteryBelowMinimum
    );
    assert!(d.incident().is_none());
}

#[test]
fn finishing_a_journey() {
    let mut d = drone();
    d.set_incident(Some(incident("a")));
    d.set_status(DroneStatus::Travelling(TravelLocation::Incident));
    assert!(d.is_travelling_to_incident());
    assert!(d.finish_travel_to_incident());
    assert_eq!(d.status(), DroneStatus::AttendingIncident);

    let mut e = drone();
    e.set_incident(Some(incident("b")));
    assert!(!e.finish_travel_to_incident());
    assert!(e.incident().is_none());
}

#[test]
fn hearing_of_other_drones() {
    let mut d = drone();
    assert_eq!(d.hear_attending_incident(), AttendingDecision::NoIncident);
    d.set_incident(Some(incident("a")));
    d.set_status(DroneStatus::Travelling(TravelLocation::Incident));
    assert_eq!(d.hear_attending_incident(), AttendingDecision::CountFirst);
    assert_eq!(d.attending_counter(), 1);
    assert_eq!(d.hear_attending_incident(), AttendingDecision::ResolveTogether);
    assert_eq!(d.attending_counter(), 1);
    d.increment_attending_counter();
    assert_eq!(d.hear_attending_incident(), AttendingDecision::Ignore);
    d.set_status(DroneStatus::AttendingIncident);
    assert_eq!(d.hear_attending_incident(), AttendingDecision::FollowClosing);
}

#[test]
fn closing_only_the_own_incident() {
    let mut d = drone();
    d.set_incident(Some(incident("a")));
    assert!(!d.close_incident(&"b".to_string()));
    assert!(d.incident().is_some());
    assert!(d.close_incident(&"a".to_string()));
    assert!(d.incident().is_none());
    assert!(!d.close_incident(&"a".to_string()));
}

#[test]
fn the_queue_is_first_in_first_out() {
    let mut d = drone();
    d.add_incident(incident("a"));
    d.add_incident(incident("b"));
    assert_eq!(d.current_incident().unwrap().uuid, "a");
    d.remove_current_incident();
    assert_eq!(d.current_incident().unwrap().uuid, "b");
    d.remove_current_incident();
    assert!(d.current_incident().is_none());
    d.remove_current_incident();
    assert!(!d.has_pending_incidents());
}

#[test]
fn journeys_go_on_until_arrival_or_a_change_of_plan() {
    let mut d = drone();
    d.set_status(DroneStatus::Travelling(TravelLocation::Central));
    assert!(d.keep_travelling(false, TravelLocation::Central));
    assert!(!d.keep_travelling(true, TravelLocation::Central));
    assert!(!d.keep_travelling(false, TravelLocation::Anchor));
}

#[test]
fn positions_and_fixed_points() {
    let mut d = Drone::new(7, bits(0.0), bits(5.0), bits(3.0), bits(4.0), bits(2.0), bits(10.0));
    assert_eq!(d.x_central_coordinate(), bits(0.0));
    assert_eq!(d.y_central_coordinate(), bits(5.0));
    assert_eq!(d.x_anchor_coordinate(), bits(3.0));
    assert_eq!(d.y_anchor_coordinate(), bits(4.0));
    assert_eq!(d.velocity(), bits(2.0));
    assert_eq!(d.active_range(), bits(10.0));
    d.set_position(bits(8.0), bits(9.0));
    assert_eq!(d.x_coordinate(), bits(8.0));
    assert_eq!(d.y_coordinate(), bits(9.0));
}

#[test]
fn the_queue_ignores_the_incident_attended() {
    let mut d = drone();
    d.add_incident(incident("a"));
    d.set_incident(Some(incident("z")));
    d.add_incident(incident("b"));
    d.add_incident(incident("c"));
    d.remove_current_incident();
    d.set_incident(None);
    assert_eq!(d.current_incident().unwrap().uuid, "b");
    assert!(d.has_pending_incidents());
    d.remove_current_incident();
    d.remove_current_incident();
    assert!(!d.has_pending_incidents());
    assert!(d.current_incident().is_none());
    assert!(d.incident().is_none());
}

#[test]
fn the_charging_cycle_goes_round() {
    let mut d = Drone::new(1, bits(0.0), bits(5.0), bits(3.0), bits(4.0), bits(2.0), bits(10.0));
    assert_eq!(d.recharge_step(RechargePhase::Watching), (RechargePhase::Watching, RechargeAction::WaitAndCheck));
    while !d.is_below_minimun() {
        d.discharge_battery();
    }
    assert_eq!(d.battery(), 19);
    assert_eq!(
        d.recharge_step(RechargePhase::Watching),
        (RechargePhase::ToCentral, RechargeAction::TravelTo(TravelLocation::Central, bits(0.0), bits(5.0)))
    );
    assert_eq!(d.recharge_step(RechargePhase::ToCentral), (RechargePhase::Charging, RechargeAction::WaitCharging));
    assert_eq!(d.status(), DroneStatus::Recharging);
    assert_eq!(d.battery(), 20);
    let mut steps = 0;
    loop {
        let (phase, action) = d.recharge_step(RechargePhase::Charging);
        steps += 1;
        if phase == RechargePhase::ToAnchor {
            assert_eq!(action, RechargeAction::TravelTo(TravelLocation::Anchor, bits(3.0), bits(4.0)));
            break;
        }
        assert_eq!(action, RechargeAction::WaitCharging);
    }
    assert_eq!(steps, 80);
    assert!(d.is_fully_charged());
    assert_eq!(d.recharge_step(RechargePhase::ToAnchor), (RechargePhase::Watching, RechargeAction::WaitAndCheck));
    assert_eq!(d.status(), DroneStatus::Free);
}
