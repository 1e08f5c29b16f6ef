//! MQTT control packets and the components they are built from.

pub mod encoded_string;
pub mod fixed_header;
pub mod login;
pub mod qos;
pub mod remaining_length;
pub mod connect_return_code;
pub mod suback_return_code;
pub mod topic_filter;
pub mod topic_level;
pub mod topic_name;
pub mod will;
pub mod packets;
pub mod encryption;
pub mod packet;
