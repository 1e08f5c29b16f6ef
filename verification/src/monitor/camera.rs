//! The monitor's picture of a camera, built from the camera system's data.

use vstd::prelude::*;

verus! {

/// Whether a camera is recording, as the monitor shows it.
#[derive(Debug, Clone, Copy, PartialEq, Eq, Structural)]
pub enum CameraStatus {
    Active,
    Inactive,
}

impl CameraStatus {
    /// The status for people to read.
    pub fn to_str(&self) -> (text: String)
        ensures
            text@ == (match *self {
                CameraStatus::Active => "Active"@,
                CameraStatus::Inactive => "Inactive"@,
            }),
    {
        match self {
            CameraStatus::Active => "Active".to_owned(),
            CameraStatus::Inactive => "Inactive".to_owned(),
        }
    }
}

/// A camera as the monitor knows it. Its coordinates are the bit patterns of
/// their IEEE-754 double-precision values.
#[derive(Debug, Clone)]
pub struct Camera {
    pub id: String,
    pub x_coordinate: u64,
    pub y_coordinate: u64,
    pub status: CameraStatus,
}

impl Camera {
    /// A camera from its data: the status code `1` means active, any other
    /// code inactive.
    pub fn new(id: String, x_coordinate: u64, y_coordinate: u64, status_str: String) -> (c: Camera)
        ensures
            c.id@ == id@,
            c.x_coordinate == x_coordinate,
            c.y_coordinate == y_coordinate,
            c.status == (if status_str@ == seq!['1'] { CameraStatus::Active } else { CameraStatus::Inactive }),
    {
        let s = status_str.as_str();
        let is_active = s.unicode_len() == 1 && s.get_char(0) == '1';
        proof {
            if is_active {
                assert(status_str@ =~= seq!['1']);
            }
        }
        let status = if is_active { CameraStatus::Active } else { CameraStatus::Inactive };
        Camera { id, x_coordinate, y_coordinate, status }
    }
}

} // verus!
