//! The topic levels the monitor, the drones and the camera system talk on,
//! and the conversions between topic levels and text.

use vstd::prelude::*;
use vstd::utf8::{decode_utf8, encode_utf8, valid_utf8};

verus! {

/// `new-incident`: the monitor announces an incident.
pub open spec fn spec_new_incident_level() -> Seq<u8> {
    seq!['n' as u8, 'e' as u8, 'w' as u8, '-' as u8, 'i' as u8, 'n' as u8, 'c' as u8, 'i' as u8, 'd' as u8, 'e' as u8, 'n' as u8, 't' as u8]
}

/// `attending-incident`: a drone has reached an incident.
pub open spec fn spec_attending_incident_level() -> Seq<u8> {
    seq!['a' as u8, 't' as u8, 't' as u8, 'e' as u8, 'n' as u8, 'd' as u8, 'i' as u8, 'n' as u8, 'g' as u8, '-' as u8, 'i' as u8, 'n' as u8, 'c' as u8, 'i' as u8, 'd' as u8, 'e' as u8, 'n' as u8, 't' as u8]
}

/// `close-incident`: the monitor closes an incident.
pub open spec fn spec_close_incident_level() -> Seq<u8> {
    seq!['c' as u8, 'l' as u8, 'o' as u8, 's' as u8, 'e' as u8, '-' as u8, 'i' as u8, 'n' as u8, 'c' as u8, 'i' as u8, 'd' as u8, 'e' as u8, 'n' as u8, 't' as u8]
}

/// `ready-incident`: the drones at an incident have resolved it.
pub open spec fn spec_ready_incident_level() -> Seq<u8> {
    seq!['r' as u8, 'e' as u8, 'a' as u8, 'd' as u8, 'y' as u8, '-' as u8, 'i' as u8, 'n' as u8, 'c' as u8, 'i' as u8, 'd' as u8, 'e' as u8, 'n' as u8, 't' as u8]
}

/// `drone-data`: a drone's position, status and battery.
pub open spec fn spec_drone_data_level() -> Seq<u8> {
    seq!['d' as u8, 'r' as u8, 'o' as u8, 'n' as u8, 'e' as u8, '-' as u8, 'd' as u8, 'a' as u8, 't' as u8, 'a' as u8]
}

/// `camera-data`: the cameras' positions and statuses.
pub open spec fn spec_camera_data_level() -> Seq<u8> {
    seq!['c' as u8, 'a' as u8, 'm' as u8, 'e' as u8, 'r' as u8, 'a' as u8, '-' as u8, 'd' as u8, 'a' as u8, 't' as u8, 'a' as u8]
}

/// `$drone-register`: the monitor registers a drone's credentials with the server.
pub open spec fn spec_drone_register_level() -> Seq<u8> {
    seq!['$' as u8, 'd' as u8, 'r' as u8, 'o' as u8, 'n' as u8, 'e' as u8, '-' as u8, 'r' as u8, 'e' as u8, 'g' as u8, 'i' as u8, 's' as u8, 't' as u8, 'e' as u8, 'r' as u8]
}

pub fn new_incident_level() -> (l: Vec<u8>)
    ensures
        l@ == spec_new_incident_level(),
{
    let l = vec!['n' as u8, 'e' as u8, 'w' as u8, '-' as u8, 'i' as u8, 'n' as u8, 'c' as u8, 'i' as u8, 'd' as u8, 'e' as u8, 'n' as u8, 't' as u8];
    assert(l@ =~= spec_new_incident_level());
    l
}

pub fn attending_incident_level() -> (l: Vec<u8>)
    ensures
        l@ == spec_attending_incident_level(),
{
    let l = vec!['a' as u8, 't' as u8, 't' as u8, 'e' as u8, 'n' as u8, 'd' as u8, 'i' as u8, 'n' as u8, 'g' as u8, '-' as u8, 'i' as u8, 'n' as u8, 'c' as u8, 'i' as u8, 'd' as u8, 'e' as u8, 'n' as u8, 't' as u8];
    assert(l@ =~= spec_attending_incident_level());
    l
}

pub fn close_incident_level() -> (l: Vec<u8>)
    ensures
        l@ == spec_close_incident_level(),
{
    let l = vec!['c' as u8, 'l' as u8, 'o' as u8, 's' as u8, 'e' as u8, '-' as u8, 'i' as u8, 'n' as u8, 'c' as u8, 'i' as u8, 'd' as u8, 'e' as u8, 'n' as u8, 't' as u8];
    assert(l@ =~= spec_close_incident_level());
    l
}

pub fn ready_incident_level() -> (l: Vec<u8>)
    ensures
        l@ == spec_ready_incident_level(),
{
    let l = vec!['r' as u8, 'e' as u8, 'a' as u8, 'd' as u8, 'y' as u8, '-' as u8, 'i' as u8, 'n' as u8, 'c' as u8, 'i' as u8, 'd' as u8, 'e' as u8, 'n' as u8, 't' as u8];
    assert(l@ =~= spec_ready_incident_level());
    l
}

pub fn drone_data_level() -> (l: Vec<u8>)
    ensures
        l@ == spec_drone_data_level(),
{
    let l = vec!['d' as u8, 'r' as u8, 'o' as u8, 'n' as u8, 'e' as u8, '-' as u8, 'd' as u8, 'a' as u8, 't' as u8, 'a' as u8];
    assert(l@ =~= spec_drone_data_level());
    l
}

pub fn camera_data_level() -> (l: Vec<u8>)
    ensures
        l@ == spec_camera_data_level(),
{
    let l = vec!['c' as u8, 'a' as u8, 'm' as u8, 'e' as u8, 'r' as u8, 'a' as u8, '-' as u8, 'd' as u8, 'a' as u8, 't' as u8, 'a' as u8];
    assert(l@ =~= spec_camera_data_level());
    l
}

pub fn drone_register_level() -> (l: Vec<u8>)
    ensures
        l@ == spec_drone_register_level(),
{
    let l = vec!['$' as u8, 'd' as u8, 'r' as u8, 'o' as u8, 'n' as u8, 'e' as u8, '-' as u8, 'r' as u8, 'e' as u8, 'g' as u8, 'i' as u8, 's' as u8, 't' as u8, 'e' as u8, 'r' as u8];
    assert(l@ =~= spec_drone_register_level());
    l
}

/// Whether two byte strings are the same.
pub fn same_bytes(a: &Vec<u8>, b: &Vec<u8>) -> (r: bool)
    ensures
        r == (a@ == b@),
{
    if a.len() != b.len() {
        return false;
    }
    let mut i: usize = 0;
    while i < a.len()
        invariant
            a@.len() == b@.len(),
            i <= a@.len(),
            forall|j: int| 0 <= j < i ==> a@[j] == b@[j],
        decreases a.len() - i,
    {
        if a[i] != b[i] {
            return false;
        }
        i = i + 1;
    }
    assert(a@ =~= b@);
    true
}

/// The UTF-8 bytes of a text.
pub fn text_bytes(text: &String) -> (bytes: Vec<u8>)
    ensures
        bytes@ == encode_utf8(text@),
{
    vstd::slice::slice_to_vec(text.as_str().as_bytes())
}

/// What `String::from_utf8_lossy` makes of a byte string: the text it
/// encodes, with each invalid sequence replaced by U+FFFD.
pub uninterp spec fn spec_utf8_lossy(bytes: Seq<u8>) -> Seq<char>;

/// `String::from_utf8`: the text whose UTF-8 encoding the bytes are, or
/// nothing when they are not valid UTF-8.
#[verifier::external_body]
pub(crate) fn text_from_utf8(bytes: Vec<u8>) -> (res: Option<String>)
    ensures
        res is Some <==> valid_utf8(bytes@),
        res matches Some(s) ==> s@ == decode_utf8(bytes@),
{
    String::from_utf8(bytes).ok()
}

/// `String::from_utf8_lossy`, made into an owned text: valid UTF-8 decodes
/// as it is; the result on other bytes is named, not stated.
#[verifier::external_body]
pub(crate) fn text_from_utf8_lossy(bytes: &Vec<u8>) -> (s: String)
    ensures
        s@ == spec_utf8_lossy(bytes@),
        valid_utf8(bytes@) ==> s@ == decode_utf8(bytes@),
{
    String::from_utf8_lossy(bytes.as_slice()).into_owned()
}

} // verus!
