//! Creating the vault that guards the encryption key, and unlocking it
//! with a password.
//!
//! A vault seals the check value `switchyard` under the key derived from the
//! password; a password unlocks the vault when the ciphertext opens to that
//! check value under the key derived from it.

use vstd::prelude::*;

use crate::crypto::argon2::{derive_key, derived_key_spec, Key, MAX_PASSWORD_LEN};
use crate::crypto::storage::{deserialize_spec, serialized_spec};
use crate::crypto::{
    aes256gcm_open, aes256gcm_seal, decrypt, encrypt, Nonce, Salt, Vault, NONCE_LENGTH,
    SALT_LENGTH,
};
use vstd::utf8::{encode_utf8, valid_utf8};

verus! {

/// Number of password attempts before unlocking gives up.
pub const MAX_ATTEMPTS: u32 = 3;

/// The bytes of the check value `switchyard` that a vault seals.
pub open spec fn check_value_spec() -> Seq<u8> {
    seq![0x73u8, 0x77u8, 0x69u8, 0x74u8, 0x63u8, 0x68u8, 0x79u8, 0x61u8, 0x72u8, 0x64u8]
}

/// The bytes of the check value `switchyard`.
pub fn check_value() -> (v: Vec<u8>)
    ensures
        v@ == check_value_spec(),
{
    let mut v: Vec<u8> = Vec::new();
    v.push(0x73);
    v.push(0x77);
    v.push(0x69);
    v.push(0x74);
    v.push(0x63);
    v.push(0x68);
    v.push(0x79);
    v.push(0x61);
    v.push(0x72);
    v.push(0x64);
    assert(v@ =~= check_value_spec());
    v
}

/// The check value is valid UTF-8 (it is ASCII).
proof fn lemma_check_value_is_utf8()
    ensures
        valid_utf8(check_value_spec()),
{
    let c = check_value_spec();
    assert(c.subrange(0, 0) =~= Seq::<u8>::empty());
    assert(vstd::utf8::partial_valid_utf8(c, 0));
    vstd::utf8::partial_valid_utf8_extend_ascii_block(c, 0, 10);
    assert(c.subrange(0, 10) =~= c);
}

/// What one password attempt against a vault gives.
pub enum UnlockAttempt {
    /// The password is right; this is the key it derives.
    Unlocked(Key),
    /// The ciphertext is not authentic under the derived key.
    DecryptionFailed,
    /// The ciphertext opens to valid UTF-8 other than the check value.
    WrongCheckValue,
}

/// Why a password attempt could not be made.
pub enum UnlockError {
    /// The key could not be derived from the password.
    KeyDerivation(::argon2::Error),
    /// The ciphertext opens to bytes that are not UTF-8.
    InvalidUtf8,
}

/// Why a vault could not be created.
pub enum VaultSetupError {
    /// The key could not be derived from the password.
    KeyDerivation(::argon2::Error),
    /// The check value could not be sealed.
    Encryption(aes_gcm::Error),
}

/// The outcome of a password attempt, as a mathematical value.
pub enum UnlockOutcome {
    KeyDerivationFailed,
    DecryptionFailed,
    WrongCheckValue,
    InvalidUtf8,
    Unlocked(Seq<u8>),
}

/// What trying `password` against a vault with this salt, nonce and
/// ciphertext gives.
pub open spec fn unlock_spec(
    salt: Seq<u8>,
    nonce: Seq<u8>,
    ciphertext: Seq<u8>,
    password: Seq<char>,
) -> UnlockOutcome {
    if encode_utf8(password).len() > MAX_PASSWORD_LEN {
        UnlockOutcome::KeyDerivationFailed
    } else {
        let key = derived_key_spec(salt, password);
        match aes256gcm_open(key, nonce, ciphertext) {
            None => UnlockOutcome::DecryptionFailed,
            Some(p) => if p == check_value_spec() {
                UnlockOutcome::Unlocked(key)
            } else if valid_utf8(p) {
                UnlockOutcome::WrongCheckValue
            } else {
                UnlockOutcome::InvalidUtf8
            },
        }
    }
}

/// Whether an attempt's result is the outcome `o`.
pub open spec fn attempt_is(r: Result<UnlockAttempt, UnlockError>, o: UnlockOutcome) -> bool {
    match o {
        UnlockOutcome::KeyDerivationFailed => r matches Err(UnlockError::KeyDerivation(_)),
        UnlockOutcome::DecryptionFailed => r matches Ok(UnlockAttempt::DecryptionFailed),
        UnlockOutcome::WrongCheckValue => r matches Ok(UnlockAttempt::WrongCheckValue),
        UnlockOutcome::InvalidUtf8 => r matches Err(UnlockError::InvalidUtf8),
        UnlockOutcome::Unlocked(k) => r matches Ok(UnlockAttempt::Unlocked(key)) && key@ == k,
    }
}

/// Tries one password against a vault: derives the key from the vault's
/// salt, opens the ciphertext, and compares it with the check value.
pub fn try_unlock(vault: &Vault, password: &str) -> (r: Result<UnlockAttempt, UnlockError>)
    ensures
        attempt_is(r, unlock_spec(vault.salt@, vault.nonce@, vault.ciphertext@, password@)),
{
    let key = match derive_key(vault.salt, password) {
        Ok(key) => key,
        Err(err) => {
            return Err(UnlockError::KeyDerivation(err));
        },
    };
    let decrypted = match decrypt(key, vault.nonce, vault.ciphertext.as_slice()) {
        Ok(decrypted) => decrypted,
        Err(_) => {
            return Ok(UnlockAttempt::DecryptionFailed);
        },
    };
    proof {
        lemma_check_value_is_utf8();
    }
    if crate::text::utf8_str(decrypted.as_slice()).is_err() {
        return Err(UnlockError::InvalidUtf8);
    }
    let expected = check_value();
    if bytes_eq(decrypted.as_slice(), expected.as_slice()) {
        Ok(UnlockAttempt::Unlocked(key))
    } else {
        Ok(UnlockAttempt::WrongCheckValue)
    }
}

/// Whether two byte sequences are equal.
fn bytes_eq(a: &[u8], b: &[u8]) -> (r: bool)
    ensures
        r == (a@ == b@),
{
    if a.len() != b.len() {
        return false;
    }
    let n = a.len();
    let mut i: usize = 0;
    while i < n
        invariant
            n == a@.len(),
            n == b@.len(),
            i <= n,
            forall|k: int| 0 <= k < i ==> a@[k] == b@[k],
        decreases n - i,
    {
        if a[i] != b[i] {
            return false;
        }
        i = i + 1;
    }
    assert(a@ =~= b@);
    true
}

/// Creates the vault for a new password: derives the key from the password
/// and salt and seals the check value with it. It fails only for passwords
/// longer than `MAX_PASSWORD_LEN` bytes, and the vault it creates unlocks
/// with the same password to the same key.
pub fn create_vault(salt: Salt, nonce: Nonce, password: &str) -> (r: Result<
    (Key, Vault),
    VaultSetupError,
>)
    ensures
        r is Ok <==> encode_utf8(password@).len() <= MAX_PASSWORD_LEN,
        r matches Err(e) ==> e is KeyDerivation,
        r matches Ok((key, vault)) ==> {
            &&& key@ == derived_key_spec(salt@, password@)
            &&& vault.salt == salt
            &&& vault.nonce == nonce
            &&& vault.ciphertext@ == aes256gcm_seal(key@, nonce@, check_value_spec())
            &&& unlock_spec(vault.salt@, vault.nonce@, vault.ciphertext@, password@)
                == UnlockOutcome::Unlocked(key@)
        },
{
    let key = match derive_key(salt, password) {
        Ok(key) => key,
        Err(err) => {
            return Err(VaultSetupError::KeyDerivation(err));
        },
    };
    let check = check_value();
    let ciphertext = match encrypt(key, nonce, check.as_slice()) {
        Ok(c) => c,
        Err(err) => {
            return Err(VaultSetupError::Encryption(err));
        },
    };
    Ok((key, Vault { salt, nonce, ciphertext }))
}

/// A vault that unlocks with a password still unlocks with it, to the same
/// key, after it is written out and read back.
pub proof fn lemma_stored_vault_unlocks(
    salt: Seq<u8>,
    nonce: Seq<u8>,
    ciphertext: Seq<u8>,
    password: Seq<char>,
    key: Seq<u8>,
)
    requires
        salt.len() == SALT_LENGTH,
        nonce.len() == NONCE_LENGTH,
        unlock_spec(salt, nonce, ciphertext, password) == UnlockOutcome::Unlocked(key),
    ensures
        deserialize_spec(serialized_spec(salt, nonce, ciphertext)) matches Ok((s, n, c))
            && unlock_spec(s, n, c, password) == UnlockOutcome::Unlocked(key),
{
    crate::crypto::storage::lemma_deserialize_serialize(salt, nonce, ciphertext);
}

/// What to do after a password attempt.
pub enum UnlockStep {
    /// The vault is unlocked with this key.
    Done(Key),
    /// Ask for the password again.
    Retry,
    /// Give up: the attempts are used up.
    GiveUp,
}

/// The step after attempt number `attempt` (counted from 1) gave the
/// attempt `a`: a right password finishes, a wrong one asks again until
/// `MAX_ATTEMPTS` attempts have been made.
pub fn after_attempt(attempt: u32, a: UnlockAttempt) -> (s: UnlockStep)
    requires
        1 <= attempt <= MAX_ATTEMPTS,
    ensures
        a matches UnlockAttempt::Unlocked(k) ==> s == UnlockStep::Done(k),
        !(a is Unlocked) && attempt < MAX_ATTEMPTS ==> s is Retry,
        !(a is Unlocked) && attempt == MAX_ATTEMPTS ==> s is GiveUp,
{
    match a {
        UnlockAttempt::Unlocked(k) => UnlockStep::Done(k),
        _ => if attempt < MAX_ATTEMPTS {
            UnlockStep::Retry
        } else {
            UnlockStep::GiveUp
        },
    }
}

} // verus!
