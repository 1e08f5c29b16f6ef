use vstd::prelude::*;

use crate::byte_reader::ByteReader;
use crate::error::Error;
use crate::mqtt::encoded_string::{
    lemma_encoded_string_roundtrip, spec_encode_string, spec_parse_string, EncodedString,
    MAX_ENCODED_STRING_LENGTH,
};
use crate::mqtt::fixed_header::{
    lemma_fixed_header_roundtrip, spec_encode_fixed_header, spec_parse_fixed_header, FixedHeader,
};
use crate::mqtt::login::Login;
use crate::mqtt::packets::puback::{lemma_u16_bytes_roundtrip, spec_u16_bytes, spec_u16_from_bytes};
use crate::mqtt::packets::{CONNECT_PACKET_TYPE, RESERVED_FIXED_HEADER_FLAGS};
use crate::mqtt::qos::{spec_qos_byte, spec_qos_from_byte, QoS};
use crate::mqtt::remaining_length::{RemainingLength, MAX_REMAINING_LENGTH};
use crate::mqtt::topic_name::{spec_topic_text, spec_topic_well_formed};
use crate::mqtt::will::{lemma_will_roundtrip, spec_encode_will, spec_parse_will, Will};

verus! {

/// The protocol level of MQTT 3.1.1.
pub const PROTOCOL_LEVEL: u8 = 0x04;

/// A will as a CONNECT carries it: the topic's levels, the message, the
/// quality of service and the retain flag.
pub open spec fn will_view(will: Option<Will>) -> Option<(Seq<Seq<u8>>, Seq<u8>, QoS, bool)> {
    match will {
        Some(w) => Some((w.spec_topic().0, w.spec_message(), w.spec_qos(), w.spec_retain())),
        None => None,
    }
}

/// The credentials as a CONNECT carries them.
pub open spec fn login_view(login: Option<Login>) -> Option<(Seq<u8>, Option<Seq<u8>>)> {
    match login {
        Some(l) => Some(l@),
        None => None,
    }
}

/// A CONNECT as the specifications see it.
pub struct ConnectView {
    pub clean_session: bool,
    pub keep_alive: u16,
    pub client_id: Seq<u8>,
    pub will: Option<(Seq<Seq<u8>>, Seq<u8>, QoS, bool)>,
    pub login: Option<(Seq<u8>, Option<Seq<u8>>)>,
}

/// The connect flags: user name, password, will retain, will quality of
/// service, will, clean session, from the high bit down.
#[verifier::opaque]
pub open spec fn spec_connect_flags(c: ConnectView) -> u8 {
    ((if c.login is Some { 128int } else { 0int })
        + (if c.login matches Some((_, Some(_))) { 64int } else { 0int })
        + (match c.will {
            Some((_, _, qos, retain)) => (if retain { 32int } else { 0int }) + 8 * spec_qos_byte(qos) + 4,
            None => 0int,
        })
        + (if c.clean_session { 2int } else { 0int })) as u8
}

/// The variable header: the protocol's name and level, the flags and the
/// keep-alive interval.
pub open spec fn spec_connect_variable_header(c: ConnectView) -> Seq<u8> {
    seq![0u8, 4u8, 'M' as u8, 'Q' as u8, 'T' as u8, 'T' as u8, PROTOCOL_LEVEL, spec_connect_flags(c)]
        + spec_u16_bytes(c.keep_alive)
}

/// The will's part of the payload: its topic and its message, when there is one.
pub open spec fn spec_will_part(c: ConnectView) -> Seq<u8> {
    match c.will {
        Some((levels, message, _, _)) => spec_encode_will(levels, message),
        None => Seq::empty(),
    }
}

/// The credentials' part of the payload: the user name and the password,
/// when there are.
pub open spec fn spec_login_part(c: ConnectView) -> Seq<u8> {
    match c.login {
        Some((username, password)) => spec_encode_string(username) + match password {
            Some(p) => spec_encode_string(p),
            None => Seq::empty(),
        },
        None => Seq::empty(),
    }
}

/// The payload: the client identifier, the will, the user name, the password.
pub open spec fn spec_connect_payload(c: ConnectView) -> Seq<u8> {
    spec_encode_string(c.client_id) + spec_will_part(c) + spec_login_part(c)
}

/// The bytes of a CONNECT.
pub open spec fn spec_encode_connect(c: ConnectView) -> Seq<u8> {
    spec_encode_fixed_header(0x10, (spec_connect_variable_header(c) + spec_connect_payload(c)).len())
        + spec_connect_variable_header(c) + spec_connect_payload(c)
}

/// A CONNECT whose strings fit their length prefixes and whose content fits
/// the remaining length.
pub open spec fn spec_connect_fits(c: ConnectView) -> bool {
    &&& c.client_id.len() <= MAX_ENCODED_STRING_LENGTH
    &&& c.will matches Some((levels, message, _, _)) ==> spec_topic_text(levels).len() <= MAX_ENCODED_STRING_LENGTH
        && message.len() <= MAX_ENCODED_STRING_LENGTH
    &&& c.login matches Some((username, password)) ==> username.len() <= MAX_ENCODED_STRING_LENGTH
        && (password matches Some(p) ==> p.len() <= MAX_ENCODED_STRING_LENGTH)
    &&& (spec_connect_variable_header(c) + spec_connect_payload(c)).len() <= MAX_REMAINING_LENGTH
}

/// The protocol name a CONNECT begins with: `MQTT` as a length-prefixed string.
pub open spec fn spec_protocol_name() -> Seq<u8> {
    seq![0u8, 4u8, 'M' as u8, 'Q' as u8, 'T' as u8, 'T' as u8]
}

/// Connect flags MQTT accepts: the reserved bit clear, a password only with a
/// user name, and will options only with a will.
pub open spec fn spec_connect_flags_valid(flags: u8) -> bool {
    &&& flags % 2 == 0
    &&& (flags / 64 % 2 == 1 ==> flags / 128 == 1)
    &&& (flags / 4 % 2 == 0 ==> flags / 8 % 4 == 0 && flags / 32 % 2 == 0)
}

/// Reads the will a CONNECT's flags announce off the front of `s`.
pub open spec fn spec_parse_connect_will(flags: u8, qos: QoS, s: Seq<u8>)
    -> Result<(Option<(Seq<Seq<u8>>, Seq<u8>, QoS, bool)>, nat), Error>
{
    if flags / 4 % 2 == 1 {
        match spec_parse_will(s) {
            Ok((levels, reserved, message, n)) => Ok((Some((levels, message, qos, flags / 32 % 2 == 1)), n)),
            Err(e) => Err(e),
        }
    } else {
        Ok((None, 0))
    }
}

/// Reads the credentials a CONNECT's flags announce off the front of `s`.
pub open spec fn spec_parse_connect_login(flags: u8, s: Seq<u8>) -> Result<(Option<(Seq<u8>, Option<Seq<u8>>)>, nat), Error> {
    if flags / 128 == 1 {
        match spec_parse_string(s) {
            Ok((username, n)) => if flags / 64 % 2 == 1 {
                match spec_parse_string(s.skip(n as int)) {
                    Ok((password, m)) => Ok((Some((username, Some(password))), n + m)),
                    Err(e) => Err(e),
                }
            } else {
                Ok((Some((username, None)), n))
            },
            Err(e) => Err(e),
        }
    } else {
        Ok((None, 0))
    }
}

/// Reads the ten bytes of a CONNECT's variable header: its flags, its
/// keep-alive interval and the will's quality of service they announce.
pub open spec fn spec_parse_connect_header(s: Seq<u8>) -> Result<(u8, u16, QoS), Error> {
    if s.len() < 10 {
        Err(Error::UnexpectedEof)
    } else if s.take(6) != spec_protocol_name() {
        Err(Error::InvalidProtocolName)
    } else if s[6] != PROTOCOL_LEVEL {
        Err(Error::InvalidProtocolLevel(s[6]))
    } else if !spec_connect_flags_valid(s[7]) {
        Err(Error::InvalidConnectFlags)
    } else {
        match spec_qos_from_byte(s[7] / 8 % 4) {
            Ok(will_qos) => Ok((s[7], spec_u16_from_bytes(s[8], s[9]), will_qos)),
            Err(e) => Err(e),
        }
    }
}

/// Reads a CONNECT's payload as its flags announce it: the client
/// identifier, the will, the credentials, and the bytes taken.
pub open spec fn spec_parse_connect_payload(flags: u8, will_qos: QoS, s: Seq<u8>)
    -> Result<(Seq<u8>, Option<(Seq<Seq<u8>>, Seq<u8>, QoS, bool)>, Option<(Seq<u8>, Option<Seq<u8>>)>, nat), Error>
{
    match spec_parse_string(s) {
        Err(e) => Err(e),
        Ok((client_id, n1)) => match spec_parse_connect_will(flags, will_qos, s.skip(n1 as int)) {
            Err(e) => Err(e),
            Ok((will, n2)) => match spec_parse_connect_login(flags, s.skip((n1 + n2) as int)) {
                Err(e) => Err(e),
                Ok((login, n3)) => Ok((client_id, will, login, n1 + n2 + n3)),
            },
        },
    }
}

/// Reads the content of a CONNECT whose fixed header has `first_byte`: the
/// packet and the number of bytes taken.
pub open spec fn spec_parse_connect(first_byte: u8, s: Seq<u8>) -> Result<(ConnectView, nat), Error> {
    if first_byte % 16 != 0 {
        Err(Error::InvalidFixedHeaderFlags)
    } else {
        match spec_parse_connect_header(s) {
            Err(e) => Err(e),
            Ok((flags, keep_alive, will_qos)) => match spec_parse_connect_payload(flags, will_qos, s.skip(10)) {
                Err(e) => Err(e),
                Ok((client_id, will, login, n)) => Ok((ConnectView {
                    clean_session: flags / 2 % 2 == 1,
                    keep_alive,
                    client_id,
                    will,
                    login,
                }, 10 + n)),
            },
        }
    }
}

/// A CONNECT that survives its bytes: it fits, and its will's topic is
/// well-formed.
pub open spec fn spec_connect_well_formed(c: ConnectView) -> bool {
    &&& spec_connect_fits(c)
    &&& c.will matches Some((levels, _, _, _)) ==> exists|reserved: bool| spec_topic_well_formed(levels, reserved)
}

/// The flags of a CONNECT are valid and give back what they announce.
pub proof fn lemma_connect_flags(c: ConnectView)
    ensures
        ({
            let flags = spec_connect_flags(c);
            &&& spec_connect_flags_valid(flags)
            &&& (flags / 128 == 1) == (c.login is Some)
            &&& (flags / 64 % 2 == 1) == (c.login matches Some((_, Some(_))))
            &&& (flags / 4 % 2 == 1) == (c.will is Some)
            &&& (c.will matches Some((_, _, qos, retain)) ==> spec_qos_from_byte(flags / 8 % 4) == Ok::<QoS, Error>(qos)
                && (flags / 32 % 2 == 1) == retain)
            &&& (c.will is None ==> spec_qos_from_byte(flags / 8 % 4) == Ok::<QoS, Error>(QoS::AtMost))
            &&& (flags / 2 % 2 == 1) == c.clean_session
        }),
{
    reveal(spec_connect_flags);
}

proof fn lemma_connect_will_roundtrip(c: ConnectView, rest: Seq<u8>)
    requires
        spec_connect_well_formed(c),
    ensures
        spec_parse_connect_will(spec_connect_flags(c), match c.will { Some((_, _, qos, _)) => qos, None => QoS::AtMost },
            spec_will_part(c) + rest)
            == Ok::<(Option<(Seq<Seq<u8>>, Seq<u8>, QoS, bool)>, nat), Error>((c.will, spec_will_part(c).len())),
{
    lemma_connect_flags(c);
    if let Some((levels, message, qos, retain)) = c.will {
        let reserved = choose|reserved: bool| spec_topic_well_formed(levels, reserved);
        lemma_will_roundtrip(levels, reserved, message, rest);
    }
}

proof fn lemma_connect_login_roundtrip(c: ConnectView, rest: Seq<u8>)
    requires
        spec_connect_well_formed(c),
    ensures
        spec_parse_connect_login(spec_connect_flags(c), spec_login_part(c) + rest)
            == Ok::<(Option<(Seq<u8>, Option<Seq<u8>>)>, nat), Error>((c.login, spec_login_part(c).len())),
{
    lemma_connect_flags(c);
    if let Some((username, password)) = c.login {
        let user_part = spec_encode_string(username);
        match password {
            Some(p) => {
                assert(spec_login_part(c) + rest =~= user_part + (spec_encode_string(p) + rest));
                lemma_encoded_string_roundtrip(username, spec_encode_string(p) + rest);
                assert((spec_login_part(c) + rest).skip(user_part.len() as int) =~= spec_encode_string(p) + rest);
                lemma_encoded_string_roundtrip(p, rest);
            },
            None => {
                assert(spec_login_part(c) + rest =~= user_part + rest);
                lemma_encoded_string_roundtrip(username, rest);
            },
        }
    }
}

proof fn lemma_connect_payload_roundtrip(c: ConnectView, rest: Seq<u8>)
    requires
        spec_connect_well_formed(c),
    ensures
        spec_parse_connect_payload(spec_connect_flags(c), match c.will { Some((_, _, qos, _)) => qos, None => QoS::AtMost },
            spec_connect_payload(c) + rest)
            == Ok::<(Seq<u8>, Option<(Seq<Seq<u8>>, Seq<u8>, QoS, bool)>, Option<(Seq<u8>, Option<Seq<u8>>)>, nat), Error>(
                (c.client_id, c.will, c.login, spec_connect_payload(c).len())),
{
    let id_part = spec_encode_string(c.client_id);
    let will_part = spec_will_part(c);
    let login_part = spec_login_part(c);
    let s = spec_connect_payload(c) + rest;
    assert(s =~= id_part + (will_part + login_part + rest));
    lemma_encoded_string_roundtrip(c.client_id, will_part + login_part + rest);
    assert(s.skip(id_part.len() as int) =~= will_part + (login_part + rest));
    lemma_connect_will_roundtrip(c, login_part + rest);
    assert(s.skip((id_part.len() + will_part.len()) as int) =~= login_part + rest);
    lemma_connect_login_roundtrip(c, rest);
}

proof fn lemma_connect_header_roundtrip(c: ConnectView, rest: Seq<u8>)
    ensures
        spec_parse_connect_header(spec_connect_variable_header(c) + rest)
            == Ok::<(u8, u16, QoS), Error>((spec_connect_flags(c), c.keep_alive,
                match c.will { Some((_, _, qos, _)) => qos, None => QoS::AtMost })),
{
    let s = spec_connect_variable_header(c) + rest;
    lemma_connect_flags(c);
    lemma_u16_bytes_roundtrip(c.keep_alive);
    assert(s.take(6) =~= spec_protocol_name());
    assert(s[6] == PROTOCOL_LEVEL && s[7] == spec_connect_flags(c));
    assert(s[8] == spec_u16_bytes(c.keep_alive)[0] && s[9] == spec_u16_bytes(c.keep_alive)[1]);
}

/// Reading back the bytes of a well-formed CONNECT gives its fixed header,
/// then the packet itself, whatever follows.
pub proof fn lemma_connect_roundtrip(c: ConnectView, rest: Seq<u8>)
    requires
        spec_connect_well_formed(c),
    ensures
        ({
            let content = spec_connect_variable_header(c) + spec_connect_payload(c);
            let bytes = spec_encode_connect(c) + rest;
            let h = spec_encode_fixed_header(0x10, content.len()).len();
            &&& spec_parse_fixed_header(bytes) == Ok::<(u8, nat, nat), Error>((0x10, content.len(), h))
            &&& spec_parse_connect(0x10, bytes.skip(h as int)) == Ok::<(ConnectView, nat), Error>((c, content.len()))
        }),
{
    let header = spec_connect_variable_header(c);
    let payload = spec_connect_payload(c);
    let content = header + payload;
    let fh = spec_encode_fixed_header(0x10, content.len());
    let bytes = spec_encode_connect(c) + rest;
    assert(bytes =~= fh + (content + rest));
    lemma_fixed_header_roundtrip(0x10, content.len(), content + rest);
    let s = content + rest;
    assert(bytes.skip(fh.len() as int) =~= s);
    assert(s =~= header + (payload + rest));
    lemma_connect_header_roundtrip(c, payload + rest);
    assert(s.skip(10) =~= payload + rest);
    lemma_connect_payload_roundtrip(c, rest);
    lemma_connect_flags(c);
}

/// A CONNECT: the first packet a client sends.
#[derive(Debug, PartialEq)]
pub struct Connect {
    clean_session: bool,
    keep_alive: u16,
    client_id: EncodedString,
    will: Option<Will>,
    login: Option<Login>,
}

impl View for Connect {
    type V = ConnectView;

    closed spec fn view(&self) -> ConnectView {
        ConnectView {
            clean_session: self.clean_session,
            keep_alive: self.keep_alive,
            client_id: self.client_id@,
            will: will_view(self.will),
            login: login_view(self.login),
        }
    }
}

impl Connect {
    pub fn new(
        clean_session: bool,
        keep_alive: u16,
        client_id: EncodedString,
        will: Option<Will>,
        login: Option<Login>,
    ) -> (c: Connect)
        ensures
            c@ == (ConnectView {
                clean_session,
                keep_alive,
                client_id: client_id@,
                will: will_view(will),
                login: login_view(login),
            }),
    {
        Connect { clean_session, keep_alive, client_id, will, login }
    }

    /// Reads the protocol's name and level, the flags, the keep-alive
    /// interval, then the client identifier and the will and credentials the
    /// flags announce. On success those bytes are consumed.
    pub fn from_bytes(fixed_header: FixedHeader, stream: &mut ByteReader) -> (res: Result<Connect, Error>)
        ensures
            match spec_parse_connect(fixed_header.spec_first_byte(), old(stream)@) {
                Ok((c, n)) => res matches Ok(r) && r@ == c && final(stream)@ == old(stream)@.skip(n as int),
                Err(e) => res == Err::<Connect, Error>(e)
                    && (fixed_header.spec_first_byte() % 16 != 0 ==> final(stream)@ == old(stream)@),
            },
    {
        if fixed_header.first_byte() % 16 != RESERVED_FIXED_HEADER_FLAGS {
            return Err(Error::InvalidFixedHeaderFlags);
        }
        let ghost s0 = stream@;
        let (flags, keep_alive, will_qos) = read_connect_header(stream)?;
        let ghost s1 = stream@;
        let (client_id, will, login) = read_connect_payload(flags, will_qos, stream)?;
        proof {
            let n = (s1.len() - stream@.len()) as nat;
            assert(stream@ =~= s0.skip((10 + n) as int));
        }
        Ok(Connect::new(flags / 2 % 2 == 1, keep_alive, client_id, will, login))
    }

    /// The fixed header, the variable header, then the payload.
    pub fn to_bytes(&self) -> (bytes: Vec<u8>)
        requires
            spec_connect_fits(self@),
        ensures
            bytes@ == spec_encode_connect(self@),
    {
        let mut flags: u8 = 0;
        match &self.login {
            Some(login) => {
                flags = flags + 128;
                if login.password().is_some() {
                    flags = flags + 64;
                }
            },
            None => {},
        }
        match &self.will {
            Some(will) => {
                if will.retain() {
                    flags = flags + 32;
                }
                flags = flags + 8 * will.qos().to_byte() + 4;
            },
            None => {},
        }
        if self.clean_session {
            flags = flags + 2;
        }
        assert(flags == spec_connect_flags(self@)) by {
            reveal(spec_connect_flags);
        }
        let mut content: Vec<u8> = vec![0u8, 4u8, 'M' as u8, 'Q' as u8, 'T' as u8, 'T' as u8, PROTOCOL_LEVEL, flags];
        content.push((self.keep_alive / 256) as u8);
        content.push((self.keep_alive % 256) as u8);
        assert(content@ =~= spec_connect_variable_header(self@));
        let mut client_id = self.client_id.to_bytes();
        content.append(&mut client_id);
        match &self.will {
            Some(will) => {
                let mut will_bytes = will.to_bytes();
                content.append(&mut will_bytes);
            },
            None => {},
        }
        match &self.login {
            Some(login) => {
                let mut username = login.username().to_bytes();
                content.append(&mut username);
                match login.password() {
                    Some(password) => {
                        let mut password_bytes = password.to_bytes();
                        content.append(&mut password_bytes);
                    },
                    None => {},
                }
            },
            None => {},
        }
        assert(content@ =~= spec_connect_variable_header(self@) + spec_connect_payload(self@));
        let fixed_header = FixedHeader::new(
            CONNECT_PACKET_TYPE * 16 + RESERVED_FIXED_HEADER_FLAGS,
            RemainingLength::new(content.len() as u32),
        );
        let mut bytes = fixed_header.to_bytes();
        bytes.append(&mut content);
        assert(bytes@ =~= spec_encode_connect(self@));
        bytes
    }
}

/// Reads a CONNECT's variable header. On success its ten bytes are consumed.
fn read_connect_header(stream: &mut ByteReader) -> (res: Result<(u8, u16, QoS), Error>)
    ensures
        match spec_parse_connect_header(old(stream)@) {
            Ok(v) => res == Ok::<(u8, u16, QoS), Error>(v) && final(stream)@ == old(stream)@.skip(10),
            Err(e) => res == Err::<(u8, u16, QoS), Error>(e),
        },
{
    let ghost s0 = stream@;
    let header = stream.read_exact(10)?;
    assert(header@ =~= s0.take(10));
    let name_matches = header[0] == 0 && header[1] == 4 && header[2] == 'M' as u8 && header[3] == 'Q' as u8
        && header[4] == 'T' as u8 && header[5] == 'T' as u8;
    if !name_matches {
        assert(s0.take(6) != spec_protocol_name()) by {
            if s0.take(6) == spec_protocol_name() {
                assert(s0.take(6)[0] == header@[0] && s0.take(6)[1] == header@[1] && s0.take(6)[2] == header@[2]);
                assert(s0.take(6)[3] == header@[3] && s0.take(6)[4] == header@[4] && s0.take(6)[5] == header@[5]);
            }
        }
        return Err(Error::InvalidProtocolName);
    }
    assert(s0.take(6) =~= spec_protocol_name());
    let level = header[6];
    if level != PROTOCOL_LEVEL {
        return Err(Error::InvalidProtocolLevel(level));
    }
    let flags = header[7];
    let valid = flags % 2 == 0 && (flags / 64 % 2 == 0 || flags / 128 == 1)
        && (flags / 4 % 2 == 1 || (flags / 8 % 4 == 0 && flags / 32 % 2 == 0));
    if !valid {
        return Err(Error::InvalidConnectFlags);
    }
    let will_qos = QoS::from_byte(flags / 8 % 4)?;
    let keep_alive = (header[8] as u16) * 256 + (header[9] as u16);
    Ok((flags, keep_alive, will_qos))
}

/// Reads a CONNECT's payload as its flags announce it. On success its bytes
/// are consumed.
fn read_connect_payload(flags: u8, will_qos: QoS, stream: &mut ByteReader)
    -> (res: Result<(EncodedString, Option<Will>, Option<Login>), Error>)
    ensures
        match spec_parse_connect_payload(flags, will_qos, old(stream)@) {
            Ok((client_id, will, login, n)) => res matches Ok((i, w, l)) && i@ == client_id && will_view(w) == will
                && login_view(l) == login && final(stream)@ == old(stream)@.skip(n as int),
            Err(e) => res is Err && res->Err_0 == e,
        },
{
    let ghost s0 = stream@;
    let client_id = EncodedString::from_bytes(stream)?;
    let ghost s1 = stream@;
    let will = if flags / 4 % 2 == 1 {
        Some(Will::from_bytes(stream, will_qos, flags / 32 % 2 == 1)?)
    } else {
        None
    };
    let ghost s2 = stream@;
    let login = read_connect_login(flags, stream)?;
    proof {
        let n1 = (s0.len() - s1.len()) as nat;
        let n2 = (s1.len() - s2.len()) as nat;
        let n3 = (s2.len() - stream@.len()) as nat;
        assert(s1 =~= s0.skip(n1 as int));
        assert(s2 =~= s0.skip((n1 + n2) as int));
        assert(stream@ =~= s0.skip((n1 + n2 + n3) as int));
    }
    Ok((client_id, will, login))
}

/// Reads the credentials a CONNECT's flags announce. On success their bytes
/// are consumed.
fn read_connect_login(flags: u8, stream: &mut ByteReader) -> (res: Result<Option<Login>, Error>)
    ensures
        match spec_parse_connect_login(flags, old(stream)@) {
            Ok((login, n)) => res matches Ok(l) && login_view(l) == login && final(stream)@ == old(stream)@.skip(n as int),
            Err(e) => res == Err::<Option<Login>, Error>(e),
        },
{
    if flags / 128 != 1 {
        return Ok(None);
    }
    let ghost s0 = stream@;
    let username = EncodedString::from_bytes(stream)?;
    let ghost s1 = stream@;
    let password = if flags / 64 % 2 == 1 {
        Some(EncodedString::from_bytes(stream)?)
    } else {
        None
    };
    proof {
        assert(s1 =~= s0.skip((s0.len() - s1.len()) as int));
        assert(stream@ =~= s0.skip((s0.len() - stream@.len()) as int));
    }
    Ok(Some(Login::new(username, password)))
}

} // verus!
