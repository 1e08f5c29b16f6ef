use vstd::prelude::*;

use crate::byte_reader::ByteReader;
use crate::error::Error;

verus! {

/// The largest value the four-byte remaining-length encoding can carry.
pub const MAX_REMAINING_LENGTH: u32 = 268_435_455;

/// 128 to the power `n`.
pub open spec fn pow128(n: nat) -> nat
    decreases n,
{
    if n == 0 { 1 } else { 128 * pow128((n - 1) as nat) }
}

/// The variable-length encoding of `v`: seven bits per byte, least significant
/// group first, the high bit set on every byte but the last.
pub open spec fn spec_encode_remaining_length(v: nat) -> Seq<u8>
    decreases v,
{
    if v < 128 {
        seq![v as u8]
    } else {
        seq![((v % 128) + 128) as u8] + spec_encode_remaining_length(v / 128)
    }
}

/// Decodes a remaining length from the front of `s`, reading at most `budget`
/// bytes: the value and the number of bytes it took, or why it failed.
pub open spec fn spec_decode_remaining_length(s: Seq<u8>, budget: nat) -> Result<(nat, nat), Error>
    decreases budget,
{
    if s.len() == 0 {
        Err(Error::UnexpectedEof)
    } else if s[0] < 128 {
        Ok((s[0] as nat, 1))
    } else if budget <= 1 {
        Err(Error::MalformedRemainingLength)
    } else {
        match spec_decode_remaining_length(s.drop_first(), (budget - 1) as nat) {
            Ok((v, n)) => Ok((((s[0] - 128) + 128 * v) as nat, n + 1)),
            Err(e) => Err(e),
        }
    }
}

/// Decoding a remaining length as MQTT does: at most four bytes.
pub open spec fn spec_parse_remaining_length(s: Seq<u8>) -> Result<(nat, nat), Error> {
    spec_decode_remaining_length(s, 4)
}

pub proof fn lemma_pow128_facts(n: nat)
    ensures
        pow128(n) >= 1,
        pow128(0) == 1,
        pow128(1) == 128,
        pow128(2) == 16384,
        pow128(3) == 2097152,
        pow128(4) == 268435456,
    decreases n,
{
    reveal_with_fuel(pow128, 5);
    if n > 0 {
        lemma_pow128_facts((n - 1) as nat);
    }
}

/// What decoding yields is below `128^budget`, and takes between one and
/// `budget` bytes of the input.
pub proof fn lemma_decode_bounds(s: Seq<u8>, budget: nat)
    requires
        budget >= 1,
    ensures
        spec_decode_remaining_length(s, budget) matches Ok((v, n)) ==>
            v < pow128(budget) && 1 <= n <= budget && n <= s.len(),
    decreases budget,
{
    lemma_pow128_facts(budget);
    if s.len() > 0 && s[0] >= 128 && budget > 1 {
        lemma_decode_bounds(s.drop_first(), (budget - 1) as nat);
        lemma_pow128_facts((budget - 1) as nat);
        if let Ok((v, n)) = spec_decode_remaining_length(s.drop_first(), (budget - 1) as nat) {
            let b = (s[0] - 128) as int;
            assert(0 <= b < 128);
            assert(v + 1 <= pow128((budget - 1) as nat));
            assert(b + 128 * v < 128 * pow128((budget - 1) as nat)) by (nonlinear_arith)
                requires 0 <= b < 128, v + 1 <= pow128((budget - 1) as nat);
            assert(pow128(budget) == 128 * pow128((budget - 1) as nat));
        }
    }
}

/// The encoding of a value below `128^budget` takes at most `budget` bytes,
/// and decoding it gives the value back, whatever bytes follow it.
pub proof fn lemma_remaining_length_roundtrip(v: nat, budget: nat, rest: Seq<u8>)
    requires
        budget >= 1,
        v < pow128(budget),
    ensures
        1 <= spec_encode_remaining_length(v).len() <= budget,
        spec_decode_remaining_length(spec_encode_remaining_length(v) + rest, budget)
            == Ok::<(nat, nat), Error>((v, spec_encode_remaining_length(v).len())),
    decreases v,
{
    let e = spec_encode_remaining_length(v);
    let s = e + rest;
    if v < 128 {
        assert(s[0] == v as u8);
    } else {
        lemma_pow128_facts(budget);
        lemma_pow128_facts((budget - 1) as nat);
        assert(budget > 1) by {
            if budget == 1 {
                assert(pow128(1) == 128);
            }
        }
        assert(v / 128 < pow128((budget - 1) as nat)) by (nonlinear_arith)
            requires v < 128 * pow128((budget - 1) as nat);
        lemma_remaining_length_roundtrip(v / 128, (budget - 1) as nat, rest);
        let tail = spec_encode_remaining_length(v / 128);
        assert(s[0] == ((v % 128) + 128) as u8);
        assert(s.drop_first() =~= tail + rest);
        assert(v == v % 128 + 128 * (v / 128)) by (nonlinear_arith);
    }
}

/// The length of what follows a fixed header, as the number of bytes of
/// variable header and payload.
#[derive(Debug, Clone, Copy, PartialEq, Eq, Structural)]
pub struct RemainingLength {
    value: u32,
}

impl RemainingLength {
    pub fn new(value: u32) -> (r: RemainingLength)
        ensures
            r.spec_value() == value,
    {
        RemainingLength { value }
    }

    pub closed spec fn spec_value(&self) -> u32 {
        self.value
    }

    /// The length, as a count of bytes.
    pub fn value(&self) -> (v: usize)
        ensures
            v == self.spec_value(),
    {
        self.value as usize
    }

    /// The bytes of the variable-length encoding of the value.
    pub fn to_bytes(&self) -> (bytes: Vec<u8>)
        requires
            self.spec_value() <= MAX_REMAINING_LENGTH,
        ensures
            bytes@ == spec_encode_remaining_length(self.spec_value() as nat),
            1 <= bytes@.len() <= 4,
    {
        proof {
            lemma_pow128_facts(4);
            lemma_remaining_length_roundtrip(self.value as nat, 4, Seq::empty());
        }
        encode_from(self.value)
    }

    /// Reads a remaining length off the front of the stream. On success the
    /// bytes of the encoding are consumed.
    pub fn from_bytes(stream: &mut ByteReader) -> (res: Result<RemainingLength, Error>)
        ensures
            match spec_parse_remaining_length(old(stream)@) {
                Ok((v, n)) => res matches Ok(r) && r.spec_value() == v
                    && final(stream)@ == old(stream)@.skip(n as int),
                Err(e) => res == Err::<RemainingLength, Error>(e),
            },
    {
        proof {
            lemma_pow128_facts(4);
            lemma_decode_bounds(stream@, 4);
        }
        match decode_from(stream, 4) {
            Ok((v, _n)) => Ok(RemainingLength { value: v }),
            Err(e) => Err(e),
        }
    }
}

fn encode_from(v: u32) -> (bytes: Vec<u8>)
    ensures
        bytes@ == spec_encode_remaining_length(v as nat),
    decreases v,
{
    if v < 128 {
        let mut out: Vec<u8> = Vec::new();
        out.push(v as u8);
        out
    } else {
        let mut out: Vec<u8> = Vec::new();
        out.push(((v % 128) + 128) as u8);
        let mut rest = encode_from(v / 128);
        out.append(&mut rest);
        out
    }
}

fn decode_from(stream: &mut ByteReader, budget: u32) -> (res: Result<(u32, usize), Error>)
    requires
        1 <= budget <= 4,
    ensures
        match spec_decode_remaining_length(old(stream)@, budget as nat) {
            Ok((v, n)) => res == Ok::<(u32, usize), Error>((v as u32, n as usize))
                && final(stream)@ == old(stream)@.skip(n as int),
            Err(e) => res == Err::<(u32, usize), Error>(e),
        },
    decreases budget,
{
    proof {
        lemma_decode_bounds(stream@, budget as nat);
        lemma_pow128_facts(budget as nat);
        lemma_pow128_facts(4);
    }
    let ghost s = stream@;
    let b = match stream.read_byte() {
        Ok(b) => b,
        Err(e) => return Err(e),
    };
    if b < 128 {
        assert(stream@ =~= s.skip(1));
        Ok((b as u32, 1))
    } else if budget <= 1 {
        Err(Error::MalformedRemainingLength)
    } else {
        proof {
            lemma_decode_bounds(s.drop_first(), (budget - 1) as nat);
            lemma_pow128_facts((budget - 1) as nat);
            assert(pow128((budget - 1) as nat) <= pow128(3)) by {
                reveal_with_fuel(pow128, 5);
            }
        }
        match decode_from(stream, budget - 1) {
            Ok((v, n)) => {
                assert(v < 2097152);
                assert(stream@ =~= s.skip(n + 1));
                Ok(((b - 128) as u32 + 128 * v, n + 1))
            },
            Err(e) => Err(e),
        }
    }
}

} // verus!
