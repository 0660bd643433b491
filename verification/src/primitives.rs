//! Cryptographic primitives: AES-256-GCM, PBKDF2-HMAC-SHA-256 and the
//! operating system's random source. The primitives themselves are not
//! verified; this module states what the rest of the library relies on.

use aes_gcm::aead::{Aead, KeyInit, OsRng};
use aes_gcm::{Aes256Gcm, Nonce};
use pbkdf2::pbkdf2_hmac;
use rand::RngCore;
use sha2::Sha256;
use vstd::prelude::*;

verus! {

/// Length of an AES-GCM nonce in bytes.
pub const NONCE_SIZE: usize = 12;

/// Length of an AES-GCM authentication tag in bytes.
pub const MAC_SIZE: usize = 16;

/// Length of an AES-256 key in bytes.
pub const KEY_SIZE: usize = 32;

/// Longest output, in bytes, that PBKDF2-HMAC-SHA-256 derives: one block of
/// 32 bytes for each number but the last of a 32-bit block counter.
pub const MAX_DERIVED: u64 = 0x1F_FFFF_FFE0;

/// Longest plaintext, in bytes, that AES-GCM accepts in one call.
pub const MAX_PLAINTEXT: u64 = 0x10_0000_0000;

/// Whether a plaintext of this length can be sealed: the cipher takes it, and
/// the ciphertext with its tag fits in memory.
pub open spec fn sealable(len: nat) -> bool {
    len <= MAX_PLAINTEXT && len + MAC_SIZE <= isize::MAX
}

/// AES-256-GCM ciphertext, tag appended, of `plaintext` under `key` and
/// `nonce` with no associated data.
pub uninterp spec fn aes_gcm_seal(key: Seq<u8>, nonce: Seq<u8>, plaintext: Seq<u8>) -> Seq<u8>;

/// What AES-256-GCM decryption of `sealed` under `key` and `nonce` gives: the
/// plaintext, or nothing where it rejects the input.
pub uninterp spec fn aes_gcm_open(key: Seq<u8>, nonce: Seq<u8>, sealed: Seq<u8>) -> Option<
    Seq<u8>,
>;

/// The `len` bytes that PBKDF2-HMAC-SHA-256 derives from a password and a
/// salt in the given number of rounds.
pub uninterp spec fn pbkdf2_sha256_key(
    password: Seq<u8>,
    salt: Seq<u8>,
    rounds: u32,
    len: nat,
) -> Seq<u8>;

/// Calls `Aes256Gcm::new_from_slice` and `Aead::encrypt` of the `aes-gcm`
/// crate. Trusted: the call succeeds exactly when the key has 32 bytes and the
/// plaintext is within the cipher's limit; the output is the named ciphertext,
/// 16 bytes longer than the plaintext, and opening it under the same key and
/// nonce gives the plaintext back. The nonce must have 12 bytes, and the
/// output must fit the largest allocation there is: else the crate panics.
#[verifier::external_body]
pub(crate) fn aead_seal(key: &[u8], nonce: &[u8], plaintext: &[u8]) -> (sealed: Option<Vec<u8>>)
    requires
        nonce@.len() == NONCE_SIZE,
        plaintext@.len() + MAC_SIZE <= isize::MAX,
    ensures
        sealed is Some <==> (key@.len() == KEY_SIZE && plaintext@.len() <= MAX_PLAINTEXT),
        sealed is Some ==> sealed->0@ == aes_gcm_seal(key@, nonce@, plaintext@),
        sealed is Some ==> sealed->0@.len() == plaintext@.len() + MAC_SIZE,
        sealed is Some ==> aes_gcm_open(key@, nonce@, sealed->0@) == Some(plaintext@),
{
    let cipher = Aes256Gcm::new_from_slice(key).ok()?;
    cipher.encrypt(Nonce::from_slice(nonce), plaintext).ok()
}

/// Calls `Aes256Gcm::new_from_slice` and `Aead::decrypt` of the `aes-gcm`
/// crate. Trusted: the result is the named one; it is nothing where the key
/// does not have 32 bytes or the input is shorter than a tag, and a plaintext
/// is 16 bytes shorter than the input.
#[verifier::external_body]
pub(crate) fn aead_open(key: &[u8], nonce: &[u8], sealed: &[u8]) -> (plain: Option<Vec<u8>>)
    requires
        nonce@.len() == NONCE_SIZE,
    ensures
        plain is Some <==> aes_gcm_open(key@, nonce@, sealed@) is Some,
        plain is Some ==> aes_gcm_open(key@, nonce@, sealed@) == Some(plain->0@),
        (key@.len() != KEY_SIZE || sealed@.len() < MAC_SIZE) ==> plain is None,
        plain is Some ==> plain->0@.len() + MAC_SIZE == sealed@.len(),
{
    let cipher = Aes256Gcm::new_from_slice(key).ok()?;
    cipher.decrypt(Nonce::from_slice(nonce), sealed).ok()
}

/// Calls `RngCore::try_fill_bytes` on `OsRng`. Trusted: where the operating
/// system delivers, the result has the length asked for. Nothing is said of
/// the bytes themselves.
#[verifier::external_body]
pub(crate) fn os_random(len: usize) -> (bytes: Option<Vec<u8>>)
    requires
        len <= isize::MAX,
    ensures
        bytes is Some ==> bytes->0@.len() == len,
{
    let mut buffer = vec![0u8; len];
    match OsRng.try_fill_bytes(&mut buffer) {
        Ok(()) => Some(buffer),
        Err(_) => None,
    }
}

/// Calls `pbkdf2_hmac::<Sha256>` of the `pbkdf2` crate with an output of
/// `len` bytes. Trusted: the result is the named key, `len` bytes long. The
/// output must fit the largest allocation there is, and must not take more
/// blocks of 32 bytes than the crate's 32-bit block counter numbers.
#[verifier::external_body]
pub(crate) fn pbkdf2_derive(password: &[u8], salt: &[u8], rounds: u32, len: usize) -> (key: Vec<
    u8,
>)
    requires
        len <= isize::MAX,
        len <= MAX_DERIVED,
    ensures
        key@ == pbkdf2_sha256_key(password@, salt@, rounds, len as nat),
        key@.len() == len,
{
    let mut key = vec![0u8; len];
    pbkdf2_hmac::<Sha256>(password, salt, rounds, &mut key);
    key
}

} // verus!
