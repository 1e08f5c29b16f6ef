use vstd::prelude::*;

use crate::mqtt::encoded_string::EncodedString;

verus! {

/// The credentials a client connects with: a user name and, maybe, a password.
#[derive(Debug, Clone, PartialEq, Eq)]
pub struct Login {
    username: EncodedString,
    password: Option<EncodedString>,
}

/// The bytes of an optional string.
pub open spec fn optional_string_view(s: Option<EncodedString>) -> Option<Seq<u8>> {
    match s {
        Some(e) => Some(e@),
        None => None,
    }
}

impl View for Login {
    type V = (Seq<u8>, Option<Seq<u8>>);

    closed spec fn view(&self) -> (Seq<u8>, Option<Seq<u8>>) {
        (self.username@, optional_string_view(self.password))
    }
}

impl Login {
    pub fn new(username: EncodedString, password: Option<EncodedString>) -> (l: Login)
        ensures
            l@ == (username@, optional_string_view(password)),
    {
        Login { username, password }
    }

    pub fn username(&self) -> (u: &EncodedString)
        ensures
            u@ == self@.0,
    {
        &self.username
    }

    pub fn password(&self) -> (p: &Option<EncodedString>)
        ensures
            optional_string_view(*p) == self@.1,
    {
        &self.password
    }
}

} // verus!
