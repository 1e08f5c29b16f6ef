//! Verified core of a drone-based incident surveillance system: the MQTT
//! wire formats its clients exchange, the text records they publish, and the
//! bookkeeping of the monitor, the drones and the camera system.

pub mod error;
pub mod text;
pub mod topics;
pub mod string_map;
pub mod byte_reader;
pub mod mqtt;
pub mod incident;
pub mod monitor;
pub mod drone;
pub mod camera_system;
