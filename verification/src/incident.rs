//! Incidents: what the monitor registers, the drones attend and the cameras
//! watch.

use vstd::prelude::*;

use crate::error::Error;
use crate::text::{lemma_split_join, parts_free_of, spec_join, spec_split, split_text, string_parts};

verus! {

/// The character between the fields of a text record.
pub const SEPARATOR: char = ';';

/// The number of fields of an incident record.
pub const ELEMENTS_COUNT: usize = 6;

/// Where an incident stands.
#[derive(Debug, Clone, Copy, PartialEq, Eq, Structural)]
pub enum IncidentStatus {
    Pending,
    InProgress,
    Resolvable,
    Resolved,
}

/// The one-character code of a status in a record.
pub open spec fn spec_status_code(status: IncidentStatus) -> Seq<char> {
    match status {
        IncidentStatus::Pending => seq!['0'],
        IncidentStatus::InProgress => seq!['1'],
        IncidentStatus::Resolvable => seq!['2'],
        IncidentStatus::Resolved => seq!['3'],
    }
}

/// The status a code stands for, if any.
pub open spec fn spec_status_from_code(code: Seq<char>) -> Option<IncidentStatus> {
    if code == seq!['0'] {
        Some(IncidentStatus::Pending)
    } else if code == seq!['1'] {
        Some(IncidentStatus::InProgress)
    } else if code == seq!['2'] {
        Some(IncidentStatus::Resolvable)
    } else if code == seq!['3'] {
        Some(IncidentStatus::Resolved)
    } else {
        None
    }
}

/// Every status survives its code.
pub proof fn lemma_status_code_roundtrip(status: IncidentStatus)
    ensures
        spec_status_from_code(spec_status_code(status)) == Some(status),
{
    assert(seq!['0'] != seq!['1']) by { assert(seq!['0'][0] != seq!['1'][0]); }
    assert(seq!['0'] != seq!['2']) by { assert(seq!['0'][0] != seq!['2'][0]); }
    assert(seq!['0'] != seq!['3']) by { assert(seq!['0'][0] != seq!['3'][0]); }
    assert(seq!['1'] != seq!['2']) by { assert(seq!['1'][0] != seq!['2'][0]); }
    assert(seq!['1'] != seq!['3']) by { assert(seq!['1'][0] != seq!['3'][0]); }
    assert(seq!['2'] != seq!['3']) by { assert(seq!['2'][0] != seq!['3'][0]); }
}

/// The record code of each status is its place in an incident's life, as a
/// digit: pending "0", in progress "1", resolvable "2", resolved "3"; and
/// those four codes, and only they, read back as those statuses.
pub proof fn lemma_status_codes(code: Seq<char>)
    ensures
        spec_status_code(IncidentStatus::Pending) == seq!['0'],
        spec_status_code(IncidentStatus::InProgress) == seq!['1'],
        spec_status_code(IncidentStatus::Resolvable) == seq!['2'],
        spec_status_code(IncidentStatus::Resolved) == seq!['3'],
        spec_status_from_code(seq!['0']) == Some(IncidentStatus::Pending),
        spec_status_from_code(seq!['1']) == Some(IncidentStatus::InProgress),
        spec_status_from_code(seq!['2']) == Some(IncidentStatus::Resolvable),
        spec_status_from_code(seq!['3']) == Some(IncidentStatus::Resolved),
        spec_status_from_code(code) matches Some(s) ==> code == spec_status_code(s),
{
    assert(seq!['0'] != seq!['1']) by { assert(seq!['0'][0] != seq!['1'][0]); }
    assert(seq!['0'] != seq!['2']) by { assert(seq!['0'][0] != seq!['2'][0]); }
    assert(seq!['0'] != seq!['3']) by { assert(seq!['0'][0] != seq!['3'][0]); }
    assert(seq!['1'] != seq!['2']) by { assert(seq!['1'][0] != seq!['2'][0]); }
    assert(seq!['1'] != seq!['3']) by { assert(seq!['1'][0] != seq!['3'][0]); }
    assert(seq!['2'] != seq!['3']) by { assert(seq!['2'][0] != seq!['3'][0]); }
}

impl IncidentStatus {
    /// The status a record's code stands for.
    pub fn from_string(string: String) -> (status: IncidentStatus)
        requires
            spec_status_from_code(string@) is Some,
        ensures
            Some(status) == spec_status_from_code(string@),
    {
        let s = string.as_str();
        let c = s.get_char(0);
        if c == '0' {
            assert(string@ =~= seq!['0']);
            IncidentStatus::Pending
        } else if c == '1' {
            assert(string@ =~= seq!['1']);
            IncidentStatus::InProgress
        } else if c == '2' {
            assert(string@ =~= seq!['2']);
            IncidentStatus::Resolvable
        } else {
            assert(string@ =~= seq!['3']);
            IncidentStatus::Resolved
        }
    }

    /// The status for people to read.
    pub fn meaning(&self) -> (text: String)
        ensures
            text@ == (match *self {
                IncidentStatus::Pending => "Pending"@,
                IncidentStatus::InProgress => "In Progress"@,
                IncidentStatus::Resolvable => "Resolvable"@,
                IncidentStatus::Resolved => "Resolved"@,
            }),
    {
        match self {
            IncidentStatus::Pending => "Pending".to_owned(),
            IncidentStatus::InProgress => "In Progress".to_owned(),
            IncidentStatus::Resolvable => "Resolvable".to_owned(),
            IncidentStatus::Resolved => "Resolved".to_owned(),
        }
    }

    /// The status's code in a record.
    pub fn to_string(&self) -> (code: String)
        ensures
            code@ == spec_status_code(*self),
    {
        proof {
            reveal_strlit("0");
            reveal_strlit("1");
            reveal_strlit("2");
            reveal_strlit("3");
        }
        match self {
            IncidentStatus::Pending => "0".to_owned(),
            IncidentStatus::InProgress => "1".to_owned(),
            IncidentStatus::Resolvable => "2".to_owned(),
            IncidentStatus::Resolved => "3".to_owned(),
        }
    }
}

/// An incident as the specifications see it. The coordinates are the bit
/// patterns of their IEEE-754 double-precision values.
pub struct IncidentView {
    pub uuid: Seq<char>,
    pub name: Seq<char>,
    pub description: Seq<char>,
    pub x_coordinate: u64,
    pub y_coordinate: u64,
    pub status: IncidentStatus,
}

/// An incident: its identifier, name and description, where it is, and where
/// it stands. The coordinates are carried as the bit patterns of their
/// IEEE-754 double-precision values.
#[derive(Debug, Clone, PartialEq)]
pub struct Incident {
    pub uuid: String,
    pub name: String,
    pub description: String,
    pub x_coordinate: u64,
    pub y_coordinate: u64,
    pub status: IncidentStatus,
}

impl View for Incident {
    type V = IncidentView;

    open spec fn view(&self) -> IncidentView {
        IncidentView {
            uuid: self.uuid@,
            name: self.name@,
            description: self.description@,
            x_coordinate: self.x_coordinate,
            y_coordinate: self.y_coordinate,
            status: self.status,
        }
    }
}

impl Incident {
    pub fn new(
        uuid: String,
        name: String,
        description: String,
        x_coordinate: u64,
        y_coordinate: u64,
        status: IncidentStatus,
    ) -> (incident: Incident)
        ensures
            incident@ == (IncidentView {
                uuid: uuid@,
                name: name@,
                description: description@,
                x_coordinate,
                y_coordinate,
                status,
            }),
    {
        Incident { uuid, name, description, x_coordinate, y_coordinate, status }
    }

    /// A copy of the incident.
    pub fn copy(&self) -> (c: Incident)
        ensures
            c@ == self@,
    {
        Incident {
            uuid: self.uuid.clone(),
            name: self.name.clone(),
            description: self.description.clone(),
            x_coordinate: self.x_coordinate,
            y_coordinate: self.y_coordinate,
            status: self.status,
        }
    }
}

/// The fields of an incident record: the parts between `;`, when there are
/// exactly six of them.
pub fn parse_incident_fields(string: &String) -> (res: Result<Vec<String>, Error>)
    ensures
        spec_split(string@, SEPARATOR).len() == ELEMENTS_COUNT ==>
            (res matches Ok(fields) && string_parts(fields@) == spec_split(string@, SEPARATOR)),
        spec_split(string@, SEPARATOR).len() != ELEMENTS_COUNT ==>
            res == Err::<Vec<String>, Error>(Error::InvalidIncident),
{
    let fields = split_text(string.as_str(), SEPARATOR);
    if fields.len() != ELEMENTS_COUNT {
        return Err(Error::InvalidIncident);
    }
    Ok(fields)
}

/// A record joined from six fields free of `;` reads back as those fields.
pub proof fn lemma_incident_record_roundtrip(fields: Seq<Seq<char>>)
    requires
        fields.len() == ELEMENTS_COUNT,
        parts_free_of(fields, SEPARATOR),
    ensures
        spec_split(spec_join(fields, SEPARATOR), SEPARATOR) == fields,
        spec_split(spec_join(fields, SEPARATOR), SEPARATOR).len() == ELEMENTS_COUNT,
{
    lemma_split_join(fields, SEPARATOR);
}

} // verus!
