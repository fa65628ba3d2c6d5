use switchyard::key_cache::{
    decode_key, encode_key, key_text_ok, CacheLookup, CachedKey, KeyCacheError,
};

#[test]
fn serializes_and_parses_cached_key() {
    let cached = CachedKey {
        key: [7; 32],
        expires_at: 42,
    };

    let parsed = CachedKey::parse(cached.serialize().trim()).unwrap();

    assert_eq!(parsed.key, [7; 32]);
    assert_eq!(parsed.expires_at, 42);
}

#[test]
fn detects_expired_cached_key() {
    let cached = CachedKey {
        key: [7; 32],
        expires_at: 42,
    };

    assert!(cached.is_expired(43));
    assert!(!cached.is_expired(41));
}

#[test]
fn rejects_invalid_key_length() {
    let error = decode_key("abc").unwrap_err();

    assert!(error.message().contains("invalid length"));
}

#[test]
fn cached_key_text_has_documented_form() {
    let mut key = [0u8; 32];
    key[0] = 0xab;
    key[31] = 0x0f;
    let cached = CachedKey { key, expires_at: 1700000000 };
    let text = cached.serialize();
    assert!(text.starts_with("expires_at=1700000000\nkey=ab00"));
    assert!(text.ends_with("000f\n"));
    assert_eq!(encode_key(key).len(), 64);
}

#[test]
fn is_expired_at_the_expiry_itself() {
    let cached = CachedKey { key: [0; 32], expires_at: 42 };
    assert!(cached.is_expired(42));
}

#[test]
fn decode_accepts_upper_case_and_plus_sign() {
    let text = "+F".to_string() + &"AB".repeat(31);
    let key = decode_key(&text).unwrap();
    assert_eq!(key[0], 0x0f);
    assert_eq!(key[1], 0xab);
}

#[test]
fn decode_rejects_non_hex() {
    let text = "zz".repeat(32);
    assert_eq!(decode_key(&text).unwrap_err(), KeyCacheError::KeyNotHex);
}

#[test]
fn parse_reports_each_malformed_part() {
    assert_eq!(
        CachedKey::parse("no newline").err().map(|e| e.message()),
        Some("key cache is missing expiry".to_string())
    );
    assert_eq!(
        CachedKey::parse("expires=1\nkey=").err(),
        Some(KeyCacheError::MalformedExpiry)
    );
    assert_eq!(
        CachedKey::parse("expires_at=x\nkey=").err(),
        Some(KeyCacheError::InvalidTimestamp)
    );
    assert_eq!(
        CachedKey::parse("expires_at=18446744073709551616\nkey=").err(),
        Some(KeyCacheError::InvalidTimestamp)
    );
    assert_eq!(
        CachedKey::parse("expires_at=+5\nk=").err(),
        Some(KeyCacheError::MalformedKey)
    );
    assert_eq!(
        CachedKey::parse("expires_at=5\nkey=00").err(),
        Some(KeyCacheError::InvalidKeyLength)
    );
}

#[test]
fn lookup_distinguishes_valid_expired_and_invalid() {
    let cached = CachedKey { key: [9; 32], expires_at: 100 };
    let text = format!("  {}  ", cached.serialize());
    assert!(matches!(CachedKey::lookup(&text, 99), CacheLookup::Valid(k) if k == [9; 32]));
    assert!(matches!(CachedKey::lookup(&text, 100), CacheLookup::Expired));
    assert!(matches!(
        CachedKey::lookup("garbage", 0),
        CacheLookup::Invalid(KeyCacheError::MissingExpiry)
    ));
}

#[test]
fn expiring_adds_five_minutes() {
    let cached = CachedKey::expiring([1; 32], 1000).unwrap();
    assert_eq!(cached.expires_at, 1300);
    assert!(CachedKey::expiring([1; 32], u64::MAX - 10).is_none());
}

#[test]
fn tells_which_key_texts_decoding_can_cut() {
    // 64 bytes: "zzz", a two-byte character, then 59 ASCII digits. The first
    // piece is not hex, so decoding stops before the character.
    let early_error = "zzz\u{e9}".to_string() + &"0".repeat(59);
    assert_eq!(early_error.len(), 64);
    assert!(key_text_ok(&early_error));
    assert_eq!(decode_key(&early_error), Err(KeyCacheError::KeyNotHex));

    // 64 bytes: "0", a two-byte character, then 61 digits: the first piece
    // ends inside the character.
    let cut = "0\u{e9}".to_string() + &"0".repeat(61);
    assert_eq!(cut.len(), 64);
    assert!(!key_text_ok(&cut));

    assert!(key_text_ok("short"));
    assert!(key_text_ok(&"ab".repeat(32)));
    assert!(CachedKey::parse_ok("expires_at=1\nkey=0\u{e9}".to_string().as_str()));
    assert!(!CachedKey::parse_ok(&("expires_at=1\nkey=".to_string() + &cut)));
    assert!(CachedKey::parse_ok("no newline"));
}

#[test]
fn expiries_past_the_system_clock_are_not_read() {
    let key = "ab".repeat(32);
    let late = format!("expires_at=9223372036854775808\nkey={key}");
    assert!(!CachedKey::parse_ok(&late));
    let latest = format!("expires_at=9223372036854775807\nkey={key}");
    assert!(CachedKey::parse_ok(&latest));
    assert_eq!(CachedKey::parse(&latest).unwrap().expires_at, 9223372036854775807);
    let late_bad_key = "expires_at=9223372036854775808\nkey=zz";
    assert!(CachedKey::parse_ok(late_bad_key));
    assert!(CachedKey::expiring([0; 32], 9223372036854775807 - 300).is_some());
    assert!(CachedKey::expiring([0; 32], 9223372036854775807 - 299).is_none());
}
