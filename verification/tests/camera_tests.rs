use sauron::camera_system::{Camera, CameraStatus, CameraSystem};
use sauron::incident::{Incident, IncidentStatus};
use sauron::monitor::camera::{Camera as MonitorCamera, CameraStatus as MonitorCameraStatus};

fn incident(uuid: &str) -> Incident {
    Incident::new(
        uuid.to_string(),
        "n".to_string(),
        "d".to_string(),
        0f64.to_bits(),
        0f64.to_bits(),
        IncidentStatus::Pending,
    )
}

#[test]
fn camera_status_codes() {
    assert_eq!(CameraStatus::Active.to_string(), "1");
    assert_eq!(CameraStatus::Sleep.to_string(), "0");
}

#[test]
fn a_camera_wakes_while_it_follows_incidents() {
    let mut c = Camera::new(3, 1, 2);
    assert_eq!(c.status(), CameraStatus::Sleep);
    c.follow_incident();
    assert_eq!(c.status(), CameraStatus::Active);
    c.follow_incident();
    assert_eq!(c.active_incidents(), 2);
    c.unfollow_incident();
    assert_eq!(c.status(), CameraStatus::Active);
    c.unfollow_incident();
    assert_eq!(c.status(), CameraStatus::Sleep);
    assert_eq!(c.active_incidents(), 0);
    assert_eq!((c.id(), c.x_coordinate(), c.y_coordinate()), (3, 1, 2));
}

#[test]
fn closing_an_incident_puts_the_cameras_back() {
    let mut system = CameraSystem::new();
    system.add_camera(Camera::new(1, 0, 0));
    system.add_camera(Camera::new(2, 0, 0));
    system.add_camera(Camera::new(3, 0, 0));
    let near = vec![true, false, true];
    system.new_incident(incident("x"), &near);
    let statuses: Vec<CameraStatus> = system.cameras().iter().map(|c| c.status()).collect();
    assert_eq!(statuses, vec![CameraStatus::Active, CameraStatus::Sleep, CameraStatus::Active]);
    assert!(system.active_incident(&"x".to_string()).is_some());

    system.close_incident(&"x".to_string(), &near);
    let statuses: Vec<CameraStatus> = system.cameras().iter().map(|c| c.status()).collect();
    assert_eq!(statuses, vec![CameraStatus::Sleep; 3]);
    assert!(system.active_incident(&"x".to_string()).is_none());
}

#[test]
fn two_incidents_keep_a_shared_camera_awake() {
    let mut system = CameraSystem::new();
    system.add_camera(Camera::new(1, 0, 0));
    system.new_incident(incident("x"), &vec![true]);
    system.new_incident(incident("y"), &vec![true]);
    system.close_incident(&"x".to_string(), &vec![true]);
    assert_eq!(system.cameras()[0].status(), CameraStatus::Active);
    assert_eq!(system.cameras()[0].active_incidents(), 1);
}

#[test]
fn monitor_camera_status_from_its_code() {
    let c = MonitorCamera::new("c1".to_string(), 1, 2, "1".to_string());
    assert_eq!(c.status, MonitorCameraStatus::Active);
    let c = MonitorCamera::new("c1".to_string(), 1, 2, "0".to_string());
    assert_eq!(c.status, MonitorCameraStatus::Inactive);
    let c = MonitorCamera::new("c1".to_string(), 1, 2, "11".to_string());
    assert_eq!(c.status, MonitorCameraStatus::Inactive);
    assert_eq!(MonitorCameraStatus::Active.to_str(), "Active");
    assert_eq!(MonitorCameraStatus::Inactive.to_str(), "Inactive");
}

#[test]
fn a_camera_follows_as_many_incidents_as_it_was_given() {
    let mut c = Camera::new(9, 4, 5);
    let calls = [true, true, false, true, false, false, true];
    let mut balance: usize = 0;
    for follow in calls {
        if follow {
            c.follow_incident();
            balance += 1;
        } else {
            c.unfollow_incident();
            balance -= 1;
        }
        assert_eq!(c.active_incidents(), balance);
        assert_eq!(c.status() == CameraStatus::Active, balance > 0);
    }
    assert_eq!((c.id(), c.x_coordinate(), c.y_coordinate()), (9, 4, 5));
}

#[test]
fn closing_undoes_opening_with_other_incidents_active() {
    let mut system = CameraSystem::new();
    system.add_camera(Camera::new(1, 0, 0));
    system.add_camera(Camera::new(2, 0, 0));
    system.new_incident(incident("x"), &vec![true, false]);
    let before: Vec<(CameraStatus, usize)> =
        system.cameras().iter().map(|c| (c.status(), c.active_incidents())).collect();
    system.new_incident(incident("y"), &vec![true, true]);
    system.close_incident(&"y".to_string(), &vec![true, true]);
    let after: Vec<(CameraStatus, usize)> =
        system.cameras().iter().map(|c| (c.status(), c.active_incidents())).collect();
    assert_eq!(before, after);
    assert!(system.active_incident(&"y".to_string()).is_none());
    assert!(system.active_incident(&"x".to_string()).is_some());
}
