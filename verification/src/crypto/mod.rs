//! Encrypted vault storage: its byte format, and the key and cipher
//! operations around it.

pub mod argon2;
pub mod storage;

use aes_gcm::aead::Aead;
use aes_gcm::KeyInit;
use vstd::prelude::*;

pub use storage::{Vault, VaultError};

verus! {

/// Length in bytes of a vault salt.
pub const SALT_LENGTH: usize = 32;

/// A random salt for key derivation.
pub type Salt = [u8; 32];

/// Length in bytes of an AES-GCM nonce.
pub const NONCE_LENGTH: usize = 12;

/// An AES-GCM nonce.
pub type Nonce = [u8; 12];


/// The longest plaintext, in bytes, that AES-GCM seals.
pub const P_MAX: u64 = 0x10_0000_0000;

#[verifier::external_type_specification]
#[verifier::external_body]
pub struct ExAeadError(aes_gcm::Error);

/// The AES-256-GCM ciphertext (with its 16-byte tag appended) of
/// `plaintext` under this key and nonce, with no associated data.
pub uninterp spec fn aes256gcm_seal(key: Seq<u8>, nonce: Seq<u8>, plaintext: Seq<u8>) -> Seq<u8>;

/// The plaintext that AES-256-GCM recovers from `ciphertext` under this key
/// and nonce, with no associated data, or `None` when the ciphertext is not
/// authentic.
pub uninterp spec fn aes256gcm_open(key: Seq<u8>, nonce: Seq<u8>, ciphertext: Seq<u8>) -> Option<
    Seq<u8>,
>;

/// `Aead::encrypt` of `aes_gcm::Aes256Gcm` (built with
/// `KeyInit::new_from_slice`, which accepts any 32-byte key).
/// Claimed of the crate: it fails exactly when the plaintext is longer than
/// `P_MAX` bytes; the ciphertext is the plaintext's length plus the 16-byte
/// tag, is the value named `aes256gcm_seal`, and decrypting it under the same
/// key and nonce gives the plaintext back.
#[verifier::external_body]
fn aes256gcm_encrypt(key: &[u8; 32], nonce: &[u8; 12], plaintext: &[u8]) -> (r: Result<
    Vec<u8>,
    aes_gcm::Error,
>)
    ensures
        r is Ok <==> plaintext@.len() <= P_MAX,
        r matches Ok(c) ==> {
            &&& c@ == aes256gcm_seal(key@, nonce@, plaintext@)
            &&& c@.len() == plaintext@.len() + 16
            &&& aes256gcm_open(key@, nonce@, c@) == Some(plaintext@)
        },
{
    aes_gcm::Aes256Gcm::new_from_slice(key.as_slice()).map_err(|_| aes_gcm::Error)?.encrypt(
        aes_gcm::Nonce::from_slice(nonce),
        plaintext,
    )
}

/// `Aead::decrypt` of `aes_gcm::Aes256Gcm` (built with
/// `KeyInit::new_from_slice`, which accepts any 32-byte key).
/// Claimed of the crate: it succeeds exactly when the ciphertext is
/// authentic under this key and nonce, and then returns the plaintext named
/// by `aes256gcm_open`.
#[verifier::external_body]
fn aes256gcm_decrypt(key: &[u8; 32], nonce: &[u8; 12], ciphertext: &[u8]) -> (r: Result<
    Vec<u8>,
    aes_gcm::Error,
>)
    ensures
        match r {
            Ok(p) => aes256gcm_open(key@, nonce@, ciphertext@) == Some(p@),
            Err(_) => aes256gcm_open(key@, nonce@, ciphertext@) is None,
        },
{
    aes_gcm::Aes256Gcm::new_from_slice(key.as_slice()).map_err(|_| aes_gcm::Error)?.decrypt(
        aes_gcm::Nonce::from_slice(nonce),
        ciphertext,
    )
}

/// Fills an array from the operating system's random number generator
/// (`rand::RngCore::fill_bytes` on `rand::rngs::OsRng`). Nothing is claimed
/// of the bytes. The crate panics when the operating system cannot supply
/// random bytes; no argument decides that.
#[verifier::external_body]
fn os_random_bytes<const N: usize>() -> [u8; N] {
    let mut bytes = [0u8; N];
    rand::RngCore::fill_bytes(&mut rand::rngs::OsRng, &mut bytes);
    bytes
}

/// A fresh random salt from the operating system.
pub fn random_salt() -> Salt {
    os_random_bytes::<32>()
}

/// A fresh random nonce from the operating system.
pub fn random_nonce() -> Nonce {
    os_random_bytes::<12>()
}

/// Seals `plaintext` with AES-256-GCM. It fails only for plaintexts longer
/// than `P_MAX` bytes; the ciphertext decrypts to the plaintext under the
/// same key and nonce.
pub fn encrypt(key: argon2::Key, nonce: Nonce, plaintext: &[u8]) -> (r: Result<
    Vec<u8>,
    aes_gcm::Error,
>)
    ensures
        r is Ok <==> plaintext@.len() <= P_MAX,
        r matches Ok(c) ==> {
            &&& c@ == aes256gcm_seal(key@, nonce@, plaintext@)
            &&& c@.len() == plaintext@.len() + 16
            &&& aes256gcm_open(key@, nonce@, c@) == Some(plaintext@)
        },
{
    aes256gcm_encrypt(&key, &nonce, plaintext)
}

/// Opens an AES-256-GCM ciphertext: the plaintext when the ciphertext is
/// authentic under this key and nonce, an error otherwise.
pub fn decrypt(key: argon2::Key, nonce: Nonce, ciphertext: &[u8]) -> (r: Result<
    Vec<u8>,
    aes_gcm::Error,
>)
    ensures
        match r {
            Ok(p) => aes256gcm_open(key@, nonce@, ciphertext@) == Some(p@),
            Err(_) => aes256gcm_open(key@, nonce@, ciphertext@) is None,
        },
{
    aes256gcm_decrypt(&key, &nonce, ciphertext)
}

} // verus!
