//! Password-based key derivation with Argon2id.

use vstd::prelude::*;

use crate::crypto::Salt;

verus! {

/// Length in bytes of a derived key.
pub const KEY_LENGTH: usize = 32;

/// AES-256 key derived from a password and salt.
pub type Key = [u8; 32];

/// Memory cost of the key derivation, in KiB (64 MiB).
pub const M_COST: u32 = 65536;

/// Number of passes of the key derivation.
pub const T_COST: u32 = 3;

/// Degree of parallelism of the key derivation.
pub const P_COST: u32 = 4;

/// The longest password, in bytes, that Argon2 accepts.
pub const MAX_PASSWORD_LEN: usize = 0xffff_ffff;

#[verifier::external_type_specification]
#[verifier::external_body]
pub struct ExArgon2Error(::argon2::Error);

/// The 32-byte Argon2id (version 0x13) output for these memory, time and
/// parallelism costs, password bytes and salt.
pub uninterp spec fn argon2id_v13_32(
    m_cost: u32,
    t_cost: u32,
    p_cost: u32,
    password: Seq<u8>,
    salt: Seq<u8>,
) -> Seq<u8>;

/// Whether `argon2::Params::new(m_cost, t_cost, p_cost, Some(32))` accepts
/// these costs.
pub open spec fn argon2_params_valid(m_cost: u32, t_cost: u32, p_cost: u32) -> bool {
    &&& m_cost >= 8
    &&& m_cost >= 8 * p_cost
    &&& t_cost >= 1
    &&& 1 <= p_cost <= 0xff_ffff
}

/// One Argon2id (version 0x13) computation of a 32-byte output: builds
/// `argon2::Params::new(m_cost, t_cost, p_cost, Some(32))`, the context
/// `argon2::Argon2::new(Algorithm::Argon2id, Version::V0x13, params)`, and
/// calls its `hash_password_into`.
/// Claimed of the crate: the call fails exactly when the costs are out of
/// the ranges that `Params::new` checks, the password is longer than
/// `MAX_PWD_LEN` bytes, or the salt is shorter than 8 or longer than
/// `MAX_SALT_LEN` bytes; on success the output is the Argon2id value named
/// `argon2id_v13_32` of these arguments.
#[verifier::external_body]
fn argon2id_hash(
    m_cost: u32,
    t_cost: u32,
    p_cost: u32,
    password: &[u8],
    salt: &[u8],
) -> (r: Result<[u8; 32], ::argon2::Error>)
    requires
        8 * p_cost <= u32::MAX,
    ensures
        r is Ok <==> (argon2_params_valid(m_cost, t_cost, p_cost) && password@.len()
            <= MAX_PASSWORD_LEN && 8 <= salt@.len() <= 0xffff_ffff),
        r matches Ok(k) ==> k@ == argon2id_v13_32(m_cost, t_cost, p_cost, password@, salt@),
{
    let params = ::argon2::Params::new(m_cost, t_cost, p_cost, Some(32))?;
    let context = ::argon2::Argon2::new(
        ::argon2::Algorithm::Argon2id,
        ::argon2::Version::V0x13,
        params,
    );
    let mut key = [0u8; 32];
    context.hash_password_into(password, salt, &mut key)?;
    Ok(key)
}

/// The key that `derive_key` derives from this salt and these password
/// characters.
pub open spec fn derived_key_spec(salt: Seq<u8>, password: Seq<char>) -> Seq<u8> {
    argon2id_v13_32(M_COST, T_COST, P_COST, vstd::utf8::encode_utf8(password), salt)
}

/// Derives a fixed-length encryption key from a password and salt using
/// Argon2id with 64 MiB of memory, 3 passes and 4 lanes. It fails only for
/// passwords longer than `MAX_PASSWORD_LEN` bytes.
pub fn derive_key(salt: Salt, password: &str) -> (r: Result<Key, ::argon2::Error>)
    ensures
        r is Ok <==> vstd::utf8::encode_utf8(password@).len() <= MAX_PASSWORD_LEN,
        r matches Ok(k) ==> k@ == derived_key_spec(salt@, password@),
{
    argon2id_hash(M_COST, T_COST, P_COST, password.as_bytes(), salt.as_slice())
}

} // verus!
