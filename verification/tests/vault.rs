use switchyard::crypto::argon2::derive_key;
use switchyard::crypto::{decrypt, encrypt, random_nonce, random_salt, Vault, VaultError};
use switchyard::unlock::{after_attempt, create_vault, try_unlock, UnlockAttempt, UnlockStep};

const SALT_LENGTH: usize = 32;
const NONCE_LENGTH: usize = 12;

#[test]
fn round_trips_header_format() {
    let vault = Vault {
        salt: [1; SALT_LENGTH],
        nonce: [2; NONCE_LENGTH],
        ciphertext: vec![3, 4, 5],
    };

    let serialized = vault.serialize();
    let deserialized = Vault::deserialize(serialized).expect("deserialize should succeed");

    assert_eq!(deserialized.salt, [1; SALT_LENGTH]);
    assert_eq!(deserialized.nonce, [2; NONCE_LENGTH]);
    assert_eq!(deserialized.ciphertext, vec![3, 4, 5]);
}

#[test]
fn deserialize_rejects_overflowing_length_header() {
    let mut data = Vec::new();
    data.extend(usize::MAX.to_ne_bytes());
    data.extend(1usize.to_ne_bytes());
    data.extend(1usize.to_ne_bytes());

    let error = match Vault::deserialize(data) {
        Ok(_) => panic!("expected deserialize to fail"),
        Err(error) => error,
    };

    assert!(error.message().contains("vault data is missing length header"));
}

#[test]
fn deserialize_rejects_length_header_larger_than_data() {
    let mut data = Vec::new();
    data.extend(1usize.to_ne_bytes());
    data.extend(12usize.to_ne_bytes());
    data.extend(1usize.to_ne_bytes());
    data.extend([0]);

    let error = match Vault::deserialize(data) {
        Ok(_) => panic!("expected deserialize to fail"),
        Err(error) => error,
    };

    assert!(error.message().contains("vault data is missing length header"));
}

#[test]
fn deserialize_rejects_invalid_magic() {
    let vault = Vault {
        salt: [1; SALT_LENGTH],
        nonce: [2; NONCE_LENGTH],
        ciphertext: vec![3],
    };
    let mut data = vault.serialize();
    data[0] = b'X';

    let error = match Vault::deserialize(data) {
        Ok(_) => panic!("expected deserialize to fail"),
        Err(error) => error,
    };

    assert!(error.message().contains("unsupported vault format"));
}

#[test]
fn deserialize_rejects_unsupported_version() {
    let vault = Vault {
        salt: [1; SALT_LENGTH],
        nonce: [2; NONCE_LENGTH],
        ciphertext: vec![3],
    };
    let mut data = vault.serialize();
    data[6..8].copy_from_slice(&2u16.to_le_bytes());

    let error = match Vault::deserialize(data) {
        Ok(_) => panic!("expected deserialize to fail"),
        Err(error) => error,
    };

    assert!(error.message().contains("unsupported vault version: 2"));
}

#[test]
fn serialized_vault_has_documented_layout() {
    let vault = Vault {
        salt: [9; SALT_LENGTH],
        nonce: [8; NONCE_LENGTH],
        ciphertext: vec![7, 6],
    };
    let data = vault.serialize();
    assert_eq!(data.len(), 66);
    assert_eq!(&data[0..6], b"SWYVLT");
    assert_eq!(&data[6..8], &[1, 0]);
    assert_eq!(&data[8..40], &[9; 32]);
    assert_eq!(&data[40..52], &[8; 12]);
    assert_eq!(&data[52..64], &[0; 12]);
    assert_eq!(&data[64..], &[7, 6]);
}

#[test]
fn deserialize_accepts_exact_header_with_empty_ciphertext() {
    let vault = Vault {
        salt: [4; SALT_LENGTH],
        nonce: [5; NONCE_LENGTH],
        ciphertext: vec![],
    };
    let data = vault.serialize();
    assert_eq!(data.len(), 64);
    let read = Vault::deserialize(data).expect("a bare header is a vault");
    assert!(read.ciphertext.is_empty());
}

#[test]
fn deserialize_checks_magic_before_version() {
    let mut data = vec![0u8; 64];
    data[6] = 2;
    assert_eq!(
        Vault::deserialize(data).err(),
        Some(VaultError::UnsupportedFormat)
    );
}

#[test]
fn deserialize_reports_read_version() {
    let vault = Vault {
        salt: [1; SALT_LENGTH],
        nonce: [2; NONCE_LENGTH],
        ciphertext: vec![],
    };
    let mut data = vault.serialize();
    data[6] = 0x34;
    data[7] = 0x12;
    assert_eq!(
        Vault::deserialize(data).err(),
        Some(VaultError::UnsupportedVersion(0x1234))
    );
}

#[test]
fn encrypt_then_decrypt_gives_plaintext_back() {
    let key = [3u8; 32];
    let nonce = [4u8; 12];
    let ciphertext = encrypt(key, nonce, b"switchyard").expect("short plaintexts are sealed");
    assert_eq!(ciphertext.len(), 10 + 16);
    assert_ne!(&ciphertext[..10], b"switchyard");
    assert_eq!(decrypt(key, nonce, &ciphertext).expect("authentic"), b"switchyard".to_vec());
}

#[test]
fn decrypt_rejects_tampered_ciphertext_and_wrong_key() {
    let key = [3u8; 32];
    let nonce = [4u8; 12];
    let mut ciphertext = encrypt(key, nonce, b"secret").unwrap();
    assert!(decrypt([5u8; 32], nonce, &ciphertext).is_err());
    ciphertext[0] ^= 1;
    assert!(decrypt(key, nonce, &ciphertext).is_err());
}

#[test]
fn random_salts_and_nonces_differ() {
    assert_ne!(random_salt(), random_salt());
    assert_ne!(random_nonce(), random_nonce());
}

#[test]
fn created_vault_unlocks_with_its_password_only() {
    let salt = [6u8; 32];
    let nonce = [7u8; 12];
    let (key, vault) = match create_vault(salt, nonce, "Pa55word!") {
        Ok(created) => created,
        Err(_) => panic!("vault creation should succeed"),
    };
    assert_eq!(vault.salt, salt);
    assert_eq!(vault.nonce, nonce);
    let stored = Vault::deserialize(vault.serialize()).expect("stored vault reads back");
    match try_unlock(&stored, "Pa55word!") {
        Ok(UnlockAttempt::Unlocked(k)) => assert_eq!(k, key),
        _ => panic!("the right password should unlock"),
    }
    assert!(matches!(
        try_unlock(&stored, "wrong"),
        Ok(UnlockAttempt::DecryptionFailed)
    ));
    match derive_key(salt, "Pa55word!") {
        Ok(k) => assert_eq!(k, key),
        Err(_) => panic!("derivation should succeed"),
    }
}

#[test]
fn unlocking_gives_up_after_three_attempts() {
    assert!(matches!(
        after_attempt(1, UnlockAttempt::DecryptionFailed),
        UnlockStep::Retry
    ));
    assert!(matches!(
        after_attempt(2, UnlockAttempt::WrongCheckValue),
        UnlockStep::Retry
    ));
    assert!(matches!(
        after_attempt(3, UnlockAttempt::DecryptionFailed),
        UnlockStep::GiveUp
    ));
    assert!(matches!(
        after_attempt(3, UnlockAttempt::Unlocked([1; 32])),
        UnlockStep::Done(k) if k == [1; 32]
    ));
}
