//! Packet encryption with AES-256-GCM: the two bytes of the fixed header stay
//! in the clear, a fresh random nonce follows them, then the sealed rest.

use vstd::prelude::*;

use aes_gcm::aead::{Aead, KeyInit, OsRng};
use aes_gcm::{Aes256Gcm, Nonce};
use rand::RngCore;

verus! {

/// The number of key bytes AES-256 takes.
pub const KEY_LENGTH: usize = 32;

/// The number of nonce bytes AES-GCM takes.
pub const NONCE_LENGTH: usize = 12;

/// The number of tag bytes AES-GCM appends to what it seals.
pub const TAG_LENGTH: usize = 16;

/// The most plaintext bytes AES-GCM seals in one call.
pub const MAX_PLAINTEXT_LENGTH: u64 = 68_719_476_736;

/// The number of fixed-header bytes left in the clear.
pub const CLEAR_HEADER_LENGTH: usize = 2;

/// What `aes_gcm` produces when it seals `plaintext` with `key` and `nonce`
/// (no associated data): the ciphertext followed by the tag.
pub uninterp spec fn spec_aes256gcm_seal(key: Seq<u8>, nonce: Seq<u8>, plaintext: Seq<u8>) -> Seq<u8>;

/// What `aes_gcm` produces when it opens `ciphertext` with `key` and `nonce`:
/// the plaintext, or nothing when the tag does not match.
pub uninterp spec fn spec_aes256gcm_open(key: Seq<u8>, nonce: Seq<u8>, ciphertext: Seq<u8>) -> Option<Seq<u8>>;

/// The shape of an encrypted packet made from `data` with `key`: the first two
/// bytes of `data`, a nonce, and the rest of `data` sealed under that nonce.
pub open spec fn spec_is_encryption_of(encrypted: Seq<u8>, data: Seq<u8>, key: Seq<u8>) -> bool {
    &&& encrypted.len() == data.len() + NONCE_LENGTH + TAG_LENGTH
    &&& encrypted.take(2) == data.take(2)
    &&& encrypted.skip(2 + NONCE_LENGTH) == spec_aes256gcm_seal(key, encrypted.subrange(2, 2 + NONCE_LENGTH), data.skip(2))
}

/// What decrypting the bytes after the clear header gives: the nonce is their
/// first twelve bytes, the sealed text the rest.
pub open spec fn spec_decryption(encrypted_data: Seq<u8>, key: Seq<u8>) -> Option<Seq<u8>> {
    spec_aes256gcm_open(key, encrypted_data.take(NONCE_LENGTH as int), encrypted_data.skip(NONCE_LENGTH as int))
}

/// Twelve bytes from the operating system's random source, through
/// `rand_core`'s `OsRng::fill_bytes` (which panics when the source fails).
/// Claims only their number.
#[verifier::external_body]
fn random_nonce() -> (nonce: Vec<u8>)
    ensures
        nonce@.len() == NONCE_LENGTH,
{
    let mut nonce = [0u8; 12];
    OsRng.fill_bytes(&mut nonce);
    nonce.to_vec()
}

/// Seals `plaintext` with `aes_gcm::Aes256Gcm::encrypt`. Claims that the
/// result is the named seal of the arguments, that it is sixteen bytes (the
/// tag) longer than the plaintext, and that opening it with the same key and
/// nonce gives the plaintext back, as the crate's counter-mode encryption
/// followed by the tag it recomputes on decryption shows.
#[verifier::external_body]
fn aes256gcm_seal(key: &[u8], nonce: &[u8], plaintext: &[u8]) -> (sealed: Vec<u8>)
    requires
        key@.len() == KEY_LENGTH,
        nonce@.len() == NONCE_LENGTH,
        plaintext@.len() <= MAX_PLAINTEXT_LENGTH,
    ensures
        sealed@ == spec_aes256gcm_seal(key@, nonce@, plaintext@),
        sealed@.len() == plaintext@.len() + TAG_LENGTH,
        spec_aes256gcm_open(key@, nonce@, sealed@) == Some(plaintext@),
{
    let cipher = Aes256Gcm::new(aes_gcm::Key::<Aes256Gcm>::from_slice(key));
    cipher.encrypt(Nonce::from_slice(nonce), plaintext).expect("plaintext within the AES-GCM limit")
}

/// Opens `sealed` with `aes_gcm::Aes256Gcm::decrypt`. Claims that the result
/// is the named opening of the arguments.
#[verifier::external_body]
fn aes256gcm_open(key: &[u8], nonce: &[u8], sealed: &[u8]) -> (opened: Option<Vec<u8>>)
    requires
        key@.len() == KEY_LENGTH,
        nonce@.len() == NONCE_LENGTH,
    ensures
        match opened {
            Some(p) => spec_aes256gcm_open(key@, nonce@, sealed@) == Some(p@),
            None => spec_aes256gcm_open(key@, nonce@, sealed@) is None,
        },
{
    let cipher = Aes256Gcm::new(aes_gcm::Key::<Aes256Gcm>::from_slice(key));
    cipher.decrypt(Nonce::from_slice(nonce), sealed).ok()
}

/// Encrypts a packet: keeps the first two bytes (the fixed header) in the
/// clear, draws a random nonce, and seals the rest. Decrypting what follows
/// the clear header with the same key gives the rest of `data` back.
pub fn encrypt(data: Vec<u8>, key: &[u8]) -> (encrypted: Vec<u8>)
    requires
        key@.len() == KEY_LENGTH,
        data@.len() >= CLEAR_HEADER_LENGTH,
        data@.len() - CLEAR_HEADER_LENGTH <= MAX_PLAINTEXT_LENGTH,
    ensures
        spec_is_encryption_of(encrypted@, data@, key@),
        spec_decryption(encrypted@.skip(2), key@) == Some(data@.skip(2)),
{
    let nonce = random_nonce();
    let mut body: Vec<u8> = Vec::new();
    let mut i: usize = CLEAR_HEADER_LENGTH;
    while i < data.len()
        invariant
            2 <= i <= data@.len(),
            body@ == data@.subrange(2, i as int),
        decreases data.len() - i,
    {
        body.push(data[i]);
        i = i + 1;
        assert(body@ =~= data@.subrange(2, i as int));
    }
    let sealed = aes256gcm_seal(key, nonce.as_slice(), body.as_slice());
    let mut encrypted: Vec<u8> = Vec::new();
    encrypted.push(data[0]);
    encrypted.push(data[1]);
    let mut j: usize = 0;
    while j < nonce.len()
        invariant
            nonce@.len() == NONCE_LENGTH,
            j <= nonce@.len(),
            encrypted@ == data@.take(2) + nonce@.take(j as int),
        decreases nonce.len() - j,
    {
        encrypted.push(nonce[j]);
        j = j + 1;
        assert(encrypted@ =~= data@.take(2) + nonce@.take(j as int));
    }
    let mut k: usize = 0;
    while k < sealed.len()
        invariant
            nonce@.len() == NONCE_LENGTH,
            k <= sealed@.len(),
            encrypted@ == data@.take(2) + nonce@ + sealed@.take(k as int),
        decreases sealed.len() - k,
    {
        encrypted.push(sealed[k]);
        k = k + 1;
        assert(encrypted@ =~= data@.take(2) + nonce@ + sealed@.take(k as int));
    }
    proof {
        assert(nonce@.take(12) =~= nonce@);
        assert(sealed@.take(sealed@.len() as int) =~= sealed@);
        assert(body@ =~= data@.skip(2));
        let e = encrypted@;
        assert(e.take(2) =~= data@.take(2));
        assert(e.subrange(2, 14) =~= nonce@);
        assert(e.skip(14) =~= sealed@);
        assert(e.skip(2).take(12) =~= nonce@);
        assert(e.skip(2).skip(12) =~= sealed@);
    }
    encrypted
}

/// Decrypts what follows the clear header of an encrypted packet: the first
/// twelve bytes are the nonce, the rest the sealed text, whose tag must
/// match (`try_decrypt` checks that instead).
pub fn decrypt(encrypted_data: &[u8], key: &[u8]) -> (res: Result<Vec<u8>, String>)
    requires
        key@.len() == KEY_LENGTH,
        encrypted_data@.len() >= NONCE_LENGTH,
        spec_decryption(encrypted_data@, key@) is Some,
    ensures
        res matches Ok(p) && Some(p@) == spec_decryption(encrypted_data@, key@),
{
    let nonce = vstd::slice::slice_subrange(encrypted_data, 0, NONCE_LENGTH);
    let sealed = vstd::slice::slice_subrange(encrypted_data, NONCE_LENGTH, encrypted_data.len());
    match aes256gcm_open(key, nonce, sealed) {
        Some(p) => Ok(p),
        None => Err("decryption failed".to_owned()),
    }
}

/// Decrypts what follows the clear header of an encrypted packet when it is
/// long enough to hold a nonce and its tag matches; gives nothing otherwise.
pub fn try_decrypt(encrypted_data: &[u8], key: &[u8]) -> (res: Option<Vec<u8>>)
    requires
        key@.len() == KEY_LENGTH,
    ensures
        encrypted_data@.len() < NONCE_LENGTH ==> res is None,
        encrypted_data@.len() >= NONCE_LENGTH ==> match res {
            Some(p) => spec_decryption(encrypted_data@, key@) == Some(p@),
            None => spec_decryption(encrypted_data@, key@) is None,
        },
{
    if encrypted_data.len() < NONCE_LENGTH {
        return None;
    }
    let nonce = vstd::slice::slice_subrange(encrypted_data, 0, NONCE_LENGTH);
    let sealed = vstd::slice::slice_subrange(encrypted_data, NONCE_LENGTH, encrypted_data.len());
    aes256gcm_open(key, nonce, sealed)
}

} // verus!
