use vstd::prelude::*;

use crate::byte_reader::ByteReader;
use crate::error::Error;

verus! {

/// The longest content a two-byte length prefix can announce.
pub const MAX_ENCODED_STRING_LENGTH: usize = 65535;

/// A content prefixed by its length as two big-endian bytes.
pub open spec fn spec_encode_string(content: Seq<u8>) -> Seq<u8> {
    seq![(content.len() / 256) as u8, (content.len() % 256) as u8] + content
}

/// Reads a length-prefixed content off the front of `s`: the content and the
/// number of bytes it took.
/// What a failed read of a string leaves of `s`: the two length bytes are
/// taken when they are there, and nothing more.
pub closed spec fn spec_string_error_rest(s: Seq<u8>) -> Seq<u8> {
    if s.len() < 2 { s } else { s.skip(2) }
}

/// What `spec_string_error_rest` leaves: all of `s` when it is shorter than
/// the length bytes, else all but them.
pub proof fn lemma_string_error_rest(s: Seq<u8>)
    ensures
        spec_string_error_rest(s) == (if s.len() < 2 { s } else { s.skip(2) }),
{
}

pub open spec fn spec_parse_string(s: Seq<u8>) -> Result<(Seq<u8>, nat), Error> {
    if s.len() < 2 {
        Err(Error::UnexpectedEof)
    } else {
        let len = s[0] as nat * 256 + s[1] as nat;
        if s.len() < 2 + len {
            Err(Error::UnexpectedEof)
        } else {
            Ok((s.subrange(2, 2 + len as int), 2 + len))
        }
    }
}

/// Parsing the encoding of a content gives the content back, whatever follows.
pub proof fn lemma_encoded_string_roundtrip(content: Seq<u8>, rest: Seq<u8>)
    requires
        content.len() <= MAX_ENCODED_STRING_LENGTH,
    ensures
        spec_parse_string(spec_encode_string(content) + rest)
            == Ok::<(Seq<u8>, nat), Error>((content, spec_encode_string(content).len())),
{
    let s = spec_encode_string(content) + rest;
    let n = content.len();
    assert(s[0] == (n / 256) as u8);
    assert(s[1] == (n % 256) as u8);
    assert((n / 256) as u8 as nat * 256 + (n % 256) as u8 as nat == n) by (nonlinear_arith)
        requires n <= 65535;
    assert(s.subrange(2, 2 + n as int) =~= content);
}

/// A string as MQTT carries it: bytes after a two-byte length.
#[derive(Debug, Clone, PartialEq, Eq)]
pub struct EncodedString {
    content: Vec<u8>,
}

impl View for EncodedString {
    type V = Seq<u8>;

    closed spec fn view(&self) -> Seq<u8> {
        self.content@
    }
}

impl EncodedString {
    pub fn new(content: Vec<u8>) -> (s: EncodedString)
        ensures
            s@ == content@,
    {
        EncodedString { content }
    }

    /// The UTF-8 bytes of a text.
    pub fn from_string(string: &String) -> (s: EncodedString)
        ensures
            s@ == vstd::utf8::encode_utf8(string@),
    {
        let bytes = string.as_str().as_bytes();
        EncodedString { content: vstd::slice::slice_to_vec(bytes) }
    }

    /// The content, without its length.
    pub fn content(&self) -> (c: &Vec<u8>)
        ensures
            c@ == self@,
    {
        &self.content
    }

    /// The number of content bytes.
    pub fn length(&self) -> (n: usize)
        ensures
            n == self@.len(),
    {
        self.content.len()
    }

    /// The two length bytes followed by the content.
    pub fn to_bytes(&self) -> (bytes: Vec<u8>)
        requires
            self@.len() <= MAX_ENCODED_STRING_LENGTH,
        ensures
            bytes@ == spec_encode_string(self@),
    {
        let n = self.content.len();
        let mut out: Vec<u8> = Vec::new();
        out.push((n / 256) as u8);
        out.push((n % 256) as u8);
        let mut i: usize = 0;
        while i < n
            invariant
                n == self.content@.len(),
                i <= n,
                out@ == seq![(n / 256) as u8, (n % 256) as u8] + self.content@.take(i as int),
            decreases n - i,
        {
            out.push(self.content[i]);
            i = i + 1;
            assert(self.content@.take(i as int) =~= self.content@.take(i - 1).push(self.content@[i - 1]));
        }
        assert(self.content@.take(n as int) =~= self.content@);
        out
    }

    /// Reads a length-prefixed string off the front of the stream. On success
    /// its bytes are consumed; when the content is short only the length is.
    pub fn from_bytes(stream: &mut ByteReader) -> (res: Result<EncodedString, Error>)
        ensures
            match spec_parse_string(old(stream)@) {
                Ok((c, n)) => res matches Ok(s) && s@ == c && final(stream)@ == old(stream)@.skip(n as int),
                Err(e) => res == Err::<EncodedString, Error>(e)
                    && final(stream)@ == spec_string_error_rest(old(stream)@),
            },
    {
        let ghost s0 = stream@;
        let len_bytes = stream.read_exact(2)?;
        let len = (len_bytes[0] as usize) * 256 + (len_bytes[1] as usize);
        assert(len == s0[0] as nat * 256 + s0[1] as nat);
        let ghost s1 = stream@;
        assert(s1 =~= s0.skip(2));
        let content = match stream.read_exact(len) {
            Ok(c) => c,
            Err(e) => return Err(e),
        };
        assert(content@ =~= s0.subrange(2, 2 + len as int));
        assert(stream@ =~= s0.skip(2 + len as int));
        Ok(EncodedString { content })
    }
}

} // verus!
