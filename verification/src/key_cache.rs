//! The short-lived cache of the vault key: its text form
//! `expires_at=<unix seconds>\nkey=<64 hex digits>\n`, and when it expires.

use vstd::prelude::*;

use crate::crypto::argon2::Key;
use crate::text::{
    chars_of, decimal, decimal_spec, digit_char, find_char, first_index, is_char,
    is_whitespace_spec, lemma_decimal_digits, lemma_first_index_found, lemma_parse_decimal,
    parse_u64, parse_u64_spec, push_char, starts_with, starts_with_spec, trim, trim_end_spec,
    trim_spec, trim_start_spec, is_digit_spec,
};
use vstd::string::{StrSliceExecFns, StringExecFns};
use vstd::utf8::{encode_utf8, is_ascii_chars, is_continuation_byte};

verus! {

/// How long a cached key stays valid, in seconds.
pub const CACHE_TTL_SECS: u64 = 300;

/// The latest time the system clock holds, in seconds since the Unix epoch
/// (its seconds are an `i64`).
pub const MAX_EXPIRY: u64 = 0x7fff_ffff_ffff_ffff;

/// Length of the hex text of a key.
pub const KEY_HEX_LENGTH: usize = 64;

/// Why cached key text was refused.
#[derive(Debug, Clone, Copy, PartialEq, Eq, Structural)]
pub enum KeyCacheError {
    MissingExpiry,
    MalformedExpiry,
    InvalidTimestamp,
    MalformedKey,
    InvalidKeyLength,
    KeyNotHex,
}

/// The message that describes a key cache error.
pub open spec fn key_cache_error_message_spec(e: KeyCacheError) -> Seq<char> {
    match e {
        KeyCacheError::MissingExpiry => "key cache is missing expiry"@,
        KeyCacheError::MalformedExpiry => "key cache expiry is malformed"@,
        KeyCacheError::InvalidTimestamp => "key cache expiry is not a unix timestamp"@,
        KeyCacheError::MalformedKey => "key cache key is malformed"@,
        KeyCacheError::InvalidKeyLength => "key cache key has invalid length"@,
        KeyCacheError::KeyNotHex => "key cache key is not hex"@,
    }
}

impl KeyCacheError {
    /// The message that describes this error.
    pub fn message(&self) -> (s: String)
        ensures
            s@ == key_cache_error_message_spec(*self),
    {
        match self {
            KeyCacheError::MissingExpiry => String::from_str("key cache is missing expiry"),
            KeyCacheError::MalformedExpiry => String::from_str("key cache expiry is malformed"),
            KeyCacheError::InvalidTimestamp => String::from_str(
                "key cache expiry is not a unix timestamp",
            ),
            KeyCacheError::MalformedKey => String::from_str("key cache key is malformed"),
            KeyCacheError::InvalidKeyLength => String::from_str("key cache key has invalid length"),
            KeyCacheError::KeyNotHex => String::from_str("key cache key is not hex"),
        }
    }
}

/// The lower-case hex digit for `n < 16`.
pub open spec fn hex_digit_spec(n: nat) -> char {
    if n < 10 {
        digit_char(n)
    } else if n == 10 {
        'a'
    } else if n == 11 {
        'b'
    } else if n == 12 {
        'c'
    } else if n == 13 {
        'd'
    } else if n == 14 {
        'e'
    } else {
        'f'
    }
}

/// The characters of the lower-case hex digits and their codes.
proof fn lemma_hex_chars()
    ensures
        "0123456789abcdef"@.len() == 16,
        "0123456789ABCDEF"@.len() == 16,
        forall|k: int| 0 <= k < 10 ==> #[trigger] ("0123456789abcdef"@[k] as u8) == 0x30 + k,
        forall|k: int| 10 <= k < 16 ==> #[trigger] ("0123456789abcdef"@[k] as u8) == 0x57 + k,
        forall|k: int| 10 <= k < 16 ==> #[trigger] ("0123456789ABCDEF"@[k] as u8) == 0x37 + k,
        forall|k: int| 0 <= k < 16 ==> #[trigger] hex_digit_spec(k as nat) == "0123456789abcdef"@[k],
{
    reveal_strlit("0123456789abcdef");
    reveal_strlit("0123456789ABCDEF");
    let l = "0123456789abcdef"@;
    let u = "0123456789ABCDEF"@;
    assert(l[0] as u8 == 0x30 && l[1] as u8 == 0x31 && l[2] as u8 == 0x32 && l[3] as u8 == 0x33);
    assert(l[4] as u8 == 0x34 && l[5] as u8 == 0x35 && l[6] as u8 == 0x36 && l[7] as u8 == 0x37);
    assert(l[8] as u8 == 0x38 && l[9] as u8 == 0x39 && l[10] as u8 == 0x61 && l[11] as u8 == 0x62);
    assert(l[12] as u8 == 0x63 && l[13] as u8 == 0x64 && l[14] as u8 == 0x65 && l[15] as u8 == 0x66);
    assert(u[10] as u8 == 0x41 && u[11] as u8 == 0x42 && u[12] as u8 == 0x43);
    assert(u[13] as u8 == 0x44 && u[14] as u8 == 0x45 && u[15] as u8 == 0x46);
    assert forall|k: int| 0 <= k < 16 implies #[trigger] hex_digit_spec(k as nat) == l[k] by {
        if k < 10 {
            assert(digit_char(k as nat) == l[k]);
        }
    }
}

/// The hex digits are the standard ones: digit `n` is the `n`-th character
/// of `0123456789abcdef`; reading a digit byte, in either case, gives its
/// value back; and the only bytes read as digits are those characters.
pub proof fn lemma_hex_alphabet()
    ensures
        forall|n: int| 0 <= n < 16 ==> #[trigger] hex_digit_spec(n as nat) == "0123456789abcdef"@[n],
        forall|n: int|
            0 <= n < 16 ==> hex_value_spec(#[trigger] ("0123456789abcdef"@[n] as u8)) == Some(
                n as nat,
            ),
        forall|n: int|
            10 <= n < 16 ==> hex_value_spec(#[trigger] ("0123456789ABCDEF"@[n] as u8)) == Some(
                n as nat,
            ),
        forall|b: u8|
            (#[trigger] hex_value_spec(b)) is Some ==> ({
                let v = hex_value_spec(b)->Some_0;
                v < 16 && (b == "0123456789abcdef"@[v as int] as u8 || b
                    == "0123456789ABCDEF"@[v as int] as u8)
            }),
{
    lemma_hex_chars();
    assert forall|b: u8| (#[trigger] hex_value_spec(b)) is Some implies ({
        let v = hex_value_spec(b)->Some_0;
        v < 16 && (b == "0123456789abcdef"@[v as int] as u8 || b == "0123456789ABCDEF"@[v as int] as u8)
    }) by {
        if 0x30 <= b <= 0x39 {
            assert("0123456789abcdef"@[(b - 0x30) as int] as u8 == b);
        } else if 0x61 <= b <= 0x66 {
            assert("0123456789abcdef"@[(b - 0x57) as int] as u8 == b);
        } else if 0x41 <= b <= 0x46 {
            assert("0123456789ABCDEF"@[(b - 0x37) as int] as u8 == b);
        }
    }
}

/// The hex text of a key writes byte `i` as characters `2i` and `2i + 1`:
/// the standard hex digits of its high and low four bits (`{:02x}`); and
/// reading those two characters back gives the byte.
pub proof fn lemma_key_text(key: Seq<u8>)
    ensures
        encode_key_spec(key).len() == 2 * key.len(),
        forall|i: int|
            0 <= i < key.len() ==> {
                &&& #[trigger] encode_key_spec(key)[2 * i] == "0123456789abcdef"@[(key[i] / 16) as int]
                &&& encode_key_spec(key)[2 * i + 1] == "0123456789abcdef"@[(key[i] % 16) as int]
                &&& hex_pair_spec(
                    encode_key_spec(key)[2 * i] as u8,
                    encode_key_spec(key)[2 * i + 1] as u8,
                ) == Some(key[i])
            },
{
    lemma_hex_alphabet();
    lemma_hex_chars();
    assert forall|i: int| 0 <= i < key.len() implies {
        &&& #[trigger] encode_key_spec(key)[2 * i] == "0123456789abcdef"@[(key[i] / 16) as int]
        &&& encode_key_spec(key)[2 * i + 1] == "0123456789abcdef"@[(key[i] % 16) as int]
        &&& hex_pair_spec(encode_key_spec(key)[2 * i] as u8, encode_key_spec(key)[2 * i + 1] as u8)
            == Some(key[i])
    } by {
        let hi = key[i] / 16;
        let lo = key[i] % 16;
        assert((2 * i) % 2 == 0 && (2 * i) / 2 == i);
        assert((2 * i + 1) % 2 == 1 && (2 * i + 1) / 2 == i);
        assert(hex_digit_spec(hi as nat) == "0123456789abcdef"@[hi as int]);
        assert(hex_digit_spec(lo as nat) == "0123456789abcdef"@[lo as int]);
        assert(hex_value_spec("0123456789abcdef"@[hi as int] as u8) == Some(hi as nat));
        assert(hex_value_spec("0123456789abcdef"@[lo as int] as u8) == Some(lo as nat));
        assert("0123456789abcdef"@[hi as int] as u8 != 0x2b);
        assert(hi * 16 + lo == key[i]);
    }
}

/// The lower-case hex text of a key: two digits per byte, high nibble first.
pub open spec fn encode_key_spec(key: Seq<u8>) -> Seq<char> {
    Seq::new(
        2 * key.len(),
        |i: int|
            if i % 2 == 0 {
                hex_digit_spec((key[i / 2] / 16) as nat)
            } else {
                hex_digit_spec((key[i / 2] % 16) as nat)
            },
    )
}

/// The value of a hex digit byte, in either case.
pub open spec fn hex_value_spec(b: u8) -> Option<nat> {
    if 0x30 <= b <= 0x39 {
        Some((b - 0x30) as nat)
    } else if 0x61 <= b <= 0x66 {
        Some((b - 0x57) as nat)
    } else if 0x41 <= b <= 0x46 {
        Some((b - 0x37) as nat)
    } else {
        None
    }
}

/// `u8::from_str_radix` in base 16 of a two-byte text: either two hex
/// digits, or `+` and one hex digit.
pub open spec fn hex_pair_spec(b0: u8, b1: u8) -> Option<u8> {
    if b0 == 0x2b {
        match hex_value_spec(b1) {
            Some(v) => Some(v as u8),
            None => None,
        }
    } else {
        match (hex_value_spec(b0), hex_value_spec(b1)) {
            (Some(h), Some(l)) => Some((h * 16 + l) as u8),
            _ => None,
        }
    }
}

/// The byte that the `i`-th pair of `bytes` reads as.
pub open spec fn pair_at(bytes: Seq<u8>, i: int) -> Option<u8> {
    hex_pair_spec(bytes[2 * i], bytes[2 * i + 1])
}

/// What the hex text `bytes` decodes to.
pub open spec fn decode_key_spec(bytes: Seq<u8>) -> Result<Seq<u8>, KeyCacheError> {
    if bytes.len() != KEY_HEX_LENGTH {
        Err(KeyCacheError::InvalidKeyLength)
    } else if forall|i: int| 0 <= i < 32 ==> (#[trigger] pair_at(bytes, i)) is Some {
        Ok(Seq::new(32, |i: int| pair_at(bytes, i)->Some_0))
    } else {
        Err(KeyCacheError::KeyNotHex)
    }
}

/// Whether byte `i` of `bytes` begins a character, or is the end.
pub open spec fn is_char_start(bytes: Seq<u8>, i: int) -> bool {
    i >= bytes.len() || !is_continuation_byte(bytes[i])
}

/// Whether the `i`-th two-byte piece of `bytes` begins and ends between
/// characters.
pub open spec fn piece_cuttable(bytes: Seq<u8>, i: int) -> bool {
    is_char_start(bytes, 2 * i) && is_char_start(bytes, 2 * i + 2)
}

/// Whether decoding the key text never cuts a character in two: when the
/// text has the right length, each piece that decoding reaches (every piece
/// up to the first that is not hex) begins and ends between characters.
pub open spec fn key_text_defined(text: Seq<char>) -> bool {
    let bytes = encode_utf8(text);
    bytes.len() == KEY_HEX_LENGTH ==> forall|i: int|
        0 <= i < 32 && (forall|j: int| 0 <= j < i ==> (#[trigger] pair_at(bytes, j)) is Some)
            ==> #[trigger] piece_cuttable(bytes, i)
}

/// Whether `b` continues a character rather than beginning one.
fn is_continuation(b: u8) -> (r: bool)
    ensures
        r == is_continuation_byte(b),
{
    0x80 <= b && b <= 0xbf
}

/// Whether decoding `text` as a key never cuts a character in two.
pub fn key_text_ok(text: &str) -> (b: bool)
    ensures
        b == key_text_defined(text@),
{
    let bytes = text.as_bytes();
    assert(bytes@ == encode_utf8(text@));
    if bytes.len() != KEY_HEX_LENGTH {
        return true;
    }
    let mut i: usize = 0;
    while i < 32
        invariant
            i <= 32,
            bytes@.len() == KEY_HEX_LENGTH,
            bytes@ == encode_utf8(text@),
            forall|j: int| 0 <= j < i ==> (#[trigger] pair_at(bytes@, j)) is Some,
            forall|j: int| 0 <= j < i ==> #[trigger] piece_cuttable(bytes@, j),
        decreases 32 - i,
    {
        let starts = !is_continuation(bytes[2 * i]);
        let ends = 2 * i + 2 >= KEY_HEX_LENGTH || !is_continuation(bytes[2 * i + 2]);
        if !(starts && ends) {
            assert(!piece_cuttable(bytes@, i as int));
            return false;
        }
        assert(piece_cuttable(bytes@, i as int));
        if hex_pair(bytes[2 * i], bytes[2 * i + 1]).is_none() {
            assert(pair_at(bytes@, i as int) is None);
            assert forall|k: int|
                0 <= k < 32 && (forall|j: int| 0 <= j < k ==> (#[trigger] pair_at(bytes@, j)) is Some)
                    implies #[trigger] piece_cuttable(bytes@, k) by {
                if k > i {
                    assert(pair_at(bytes@, i as int) is None);
                }
            }
            return true;
        }
        i = i + 1;
    }
    true
}

/// The lower-case hex digit for `n < 16`.
fn hex_digit(n: u8) -> (c: char)
    requires
        n < 16,
    ensures
        c == hex_digit_spec(n as nat),
{
    if n < 10 {
        crate::text::digit(n)
    } else if n == 10 {
        'a'
    } else if n == 11 {
        'b'
    } else if n == 12 {
        'c'
    } else if n == 13 {
        'd'
    } else if n == 14 {
        'e'
    } else {
        'f'
    }
}

/// The value of a hex digit byte, in either case.
fn hex_value(b: u8) -> (r: Option<u8>)
    ensures
        match hex_value_spec(b) {
            Some(v) => r == Some(v as u8) && v < 16,
            None => r is None,
        },
{
    if 0x30 <= b && b <= 0x39 {
        Some(b - 0x30)
    } else if 0x61 <= b && b <= 0x66 {
        Some(b - 0x57)
    } else if 0x41 <= b && b <= 0x46 {
        Some(b - 0x37)
    } else {
        None
    }
}

/// `u8::from_str_radix(piece, 16)` of a two-byte piece.
fn hex_pair(b0: u8, b1: u8) -> (r: Option<u8>)
    ensures
        r == hex_pair_spec(b0, b1),
{
    if b0 == 0x2b {
        hex_value(b1)
    } else {
        match (hex_value(b0), hex_value(b1)) {
            (Some(h), Some(l)) => Some(h * 16 + l),
            _ => None,
        }
    }
}

/// The lower-case hex text of a key.
pub fn encode_key(key: Key) -> (s: String)
    ensures
        s@ == encode_key_spec(key@),
{
    let mut s = String::new();
    let mut i: usize = 0;
    while i < 32
        invariant
            i <= 32,
            key@.len() == 32,
            s@ == encode_key_spec(key@).take(2 * i),
        decreases 32 - i,
    {
        let b = key[i];
        push_char(&mut s, hex_digit(b / 16));
        push_char(&mut s, hex_digit(b % 16));
        i = i + 1;
        assert(s@ =~= encode_key_spec(key@).take(2 * i));
    }
    assert(encode_key_spec(key@).take(64) =~= encode_key_spec(key@));
    s
}

/// Decodes the hex text of a key: exactly 64 bytes, read as 32 two-byte
/// pieces in base 16.
pub fn decode_key(encoded: &str) -> (r: Result<Key, KeyCacheError>)
    requires
        key_text_defined(encoded@),
    ensures
        match r {
            Ok(k) => decode_key_spec(encode_utf8(encoded@)) == Ok::<_, KeyCacheError>(k@),
            Err(e) => decode_key_spec(encode_utf8(encoded@)) == Err::<Seq<u8>, _>(e),
        },
{
    let bytes = encoded.as_bytes();
    assert(bytes@ == encode_utf8(encoded@));
    if bytes.len() != KEY_HEX_LENGTH {
        return Err(KeyCacheError::InvalidKeyLength);
    }
    let mut key: [u8; 32] = [0u8; 32];
    let mut i: usize = 0;
    while i < 32
        invariant
            i <= 32,
            bytes@.len() == KEY_HEX_LENGTH,
            bytes@ == encode_utf8(encoded@),
            key@.len() == 32,
            forall|k: int| 0 <= k < i ==> (#[trigger] pair_at(bytes@, k)) == Some(key@[k]),
        decreases 32 - i,
    {
        match hex_pair(bytes[2 * i], bytes[2 * i + 1]) {
            Some(v) => {
                key[i] = v;
            },
            None => {
                assert(pair_at(bytes@, i as int) is None);
                assert(!(forall|k: int| 0 <= k < 32 ==> (#[trigger] pair_at(bytes@, k)) is Some));
                return Err(KeyCacheError::KeyNotHex);
            },
        }
        i = i + 1;
    }
    assert(key@ =~= Seq::new(32, |k: int| pair_at(bytes@, k)->Some_0));
    Ok(key)
}

/// A cached key and the time it expires, in seconds since the Unix epoch.
pub struct CachedKey {
    pub key: Key,
    pub expires_at: u64,
}

/// The text that caches `key` until `expires_at`.
pub open spec fn serialize_spec(key: Seq<u8>, expires_at: u64) -> Seq<char> {
    "expires_at="@ + decimal_spec(expires_at as nat) + "\nkey="@ + encode_key_spec(key) + "\n"@
}

/// The cache text read up to the key: the expiry and the key text, or the
/// reason it is refused. The text is cut at its first newline; the first
/// line must be `expires_at=` and a `u64`, the rest `key=` and the key text.
pub open spec fn parse_stage_spec(s: Seq<char>) -> Result<(u64, Seq<char>), KeyCacheError> {
    match first_index(s, is_char('\n')) {
        None => Err(KeyCacheError::MissingExpiry),
        Some(nl) => {
            let expiry = s.subrange(0, nl);
            let rest = s.subrange(nl + 1, s.len() as int);
            if !starts_with_spec(expiry, "expires_at="@) {
                Err(KeyCacheError::MalformedExpiry)
            } else {
                match parse_u64_spec(
                    expiry.subrange("expires_at="@.len() as int, expiry.len() as int),
                ) {
                    None => Err(KeyCacheError::InvalidTimestamp),
                    Some(t) => if !starts_with_spec(rest, "key="@) {
                        Err(KeyCacheError::MalformedKey)
                    } else {
                        Ok((t, rest.subrange("key="@.len() as int, rest.len() as int)))
                    },
                }
            }
        },
    }
}

/// What reading the cache text `s` gives: the key and its expiry, or the
/// reason it is refused.
pub open spec fn parse_spec(s: Seq<char>) -> Result<(Seq<u8>, u64), KeyCacheError> {
    match parse_stage_spec(s) {
        Err(e) => Err(e),
        Ok((t, text)) => match decode_key_spec(encode_utf8(text)) {
            Ok(k) => Ok((k, t)),
            Err(e) => Err(e),
        },
    }
}

/// Whether reading `s` is defined: decoding never cuts a character in two,
/// and the expiry of a key that decodes is a time the system clock holds
/// (at most `MAX_EXPIRY`).
pub open spec fn parse_defined(s: Seq<char>) -> bool {
    parse_stage_spec(s) matches Ok((t, text)) ==> (key_text_defined(text) && (decode_key_spec(
        encode_utf8(text),
    ) is Ok ==> t <= MAX_EXPIRY))
}

/// What to do with text found in the key cache at time `now`.
pub enum CacheLookup {
    /// The key is cached and has not expired.
    Valid(Key),
    /// The text is not a cached key; it should be removed.
    Invalid(KeyCacheError),
    /// The cached key has expired; it should be removed.
    Expired,
}

/// Reads cache text up to the key: the expiry and the key text.
fn parse_stage(input: &str) -> (r: Result<(u64, &str), KeyCacheError>)
    ensures
        match r {
            Ok((t, text)) => parse_stage_spec(input@) == Ok::<_, KeyCacheError>((t, text@)),
            Err(e) => parse_stage_spec(input@) == Err::<(u64, Seq<char>), _>(e),
        },
{
    let cs = chars_of(input);
    let nl = match find_char(cs.as_slice(), '\n') {
        Some(nl) => nl,
        None => {
            return Err(KeyCacheError::MissingExpiry);
        },
    };
    proof {
        crate::text::lemma_first_index_props(cs@, is_char('\n'));
        assert(first_index(cs@, is_char('\n')) == Some(nl as int));
    }
    assert(nl < cs.len());
    let expiry = &cs[0..nl];
    let rest = &cs[nl + 1..cs.len()];
    assert(expiry@ =~= input@.subrange(0, nl as int));
    assert(rest@ =~= input@.subrange(nl + 1, input@.len() as int));
    let expires_prefix = chars_of("expires_at=");
    if !starts_with(expiry, expires_prefix.as_slice()) {
        return Err(KeyCacheError::MalformedExpiry);
    }
    let digits = &expiry[expires_prefix.len()..expiry.len()];
    let expires_at = match parse_u64(digits) {
        Some(t) => t,
        None => {
            return Err(KeyCacheError::InvalidTimestamp);
        },
    };
    let key_prefix = chars_of("key=");
    if !starts_with(rest, key_prefix.as_slice()) {
        return Err(KeyCacheError::MalformedKey);
    }
    let text = input.substring_char(nl + 1 + key_prefix.len(), cs.len());
    assert(text@ =~= rest@.subrange("key="@.len() as int, rest@.len() as int));
    Ok((expires_at, text))
}

impl CachedKey {
    /// Reads cache text.
    pub fn parse(input: &str) -> (r: Result<CachedKey, KeyCacheError>)
        requires
            parse_defined(input@),
        ensures
            match r {
                Ok(c) => parse_spec(input@) == Ok::<_, KeyCacheError>((c.key@, c.expires_at)),
                Err(e) => parse_spec(input@) == Err::<(Seq<u8>, u64), _>(e),
            },
    {
        match parse_stage(input) {
            Err(e) => Err(e),
            Ok((expires_at, text)) => match decode_key(text) {
                Ok(key) => Ok(CachedKey { key, expires_at }),
                Err(e) => Err(e),
            },
        }
    }

    /// Whether reading `input` is defined.
    pub fn parse_ok(input: &str) -> (b: bool)
        ensures
            b == parse_defined(input@),
    {
        match parse_stage(input) {
            Err(_) => true,
            Ok((expires_at, text)) => key_text_ok(text) && (expires_at <= MAX_EXPIRY || decode_key(
                text,
            ).is_err()),
        }
    }

    /// The cache text for this key.
    pub fn serialize(&self) -> (s: String)
        ensures
            s@ == serialize_spec(self.key@, self.expires_at),
    {
        let s = String::from_str("expires_at=");
        let s = s.concat(decimal(self.expires_at as u128).as_str());
        let s = s.concat("\nkey=");
        let s = s.concat(encode_key(self.key).as_str());
        s.concat("\n")
    }

    /// Whether the key has expired at time `now`.
    pub fn is_expired(&self, now: u64) -> (b: bool)
        ensures
            b == (now >= self.expires_at),
    {
        now >= self.expires_at
    }

    /// The cache entry for `key` stored at time `now`, which expires
    /// `CACHE_TTL_SECS` later; `None` when the system clock cannot hold that
    /// time (it is past `MAX_EXPIRY`).
    pub fn expiring(key: Key, now: u64) -> (r: Option<CachedKey>)
        ensures
            now + CACHE_TTL_SECS <= MAX_EXPIRY ==> (r matches Some(c) && c.key == key
                && c.expires_at == now + CACHE_TTL_SECS),
            now + CACHE_TTL_SECS > MAX_EXPIRY ==> r is None,
    {
        if now <= MAX_EXPIRY - CACHE_TTL_SECS {
            Some(CachedKey { key, expires_at: now + CACHE_TTL_SECS })
        } else {
            None
        }
    }

    /// What to do with the text `secret` found in the key cache at time
    /// `now`: the text is trimmed and read; text that is not a cached key is
    /// invalid, a key whose expiry is not after `now` has expired.
    pub fn lookup(secret: &str, now: u64) -> (r: CacheLookup)
        requires
            parse_defined(trim_spec(secret@)),
        ensures
            match parse_spec(trim_spec(secret@)) {
                Err(e) => r == CacheLookup::Invalid(e),
                Ok((k, t)) => if now >= t {
                    r is Expired
                } else {
                    r matches CacheLookup::Valid(key) && key@ == k
                },
            },
    {
        match CachedKey::parse(trim(secret)) {
            Err(e) => CacheLookup::Invalid(e),
            Ok(cached) => if cached.is_expired(now) {
                CacheLookup::Expired
            } else {
                CacheLookup::Valid(cached.key)
            },
        }
    }
}


/// Hex digits read back as the nibble they write.
proof fn lemma_hex_digit_value(n: nat)
    requires
        n < 16,
    ensures
        hex_value_spec(hex_digit_spec(n) as u8) == Some(n),
        hex_digit_spec(n) as u8 != 0x2b,
        (hex_digit_spec(n) as u32) < 0x80,
{
    if n == 0 {
        assert('0' as u8 == 0x30);
    } else if n == 1 {
        assert('1' as u8 == 0x31);
    } else if n == 2 {
        assert('2' as u8 == 0x32);
    } else if n == 3 {
        assert('3' as u8 == 0x33);
    } else if n == 4 {
        assert('4' as u8 == 0x34);
    } else if n == 5 {
        assert('5' as u8 == 0x35);
    } else if n == 6 {
        assert('6' as u8 == 0x36);
    } else if n == 7 {
        assert('7' as u8 == 0x37);
    } else if n == 8 {
        assert('8' as u8 == 0x38);
    } else if n == 9 {
        assert('9' as u8 == 0x39);
    } else if n == 10 {
        assert('a' as u8 == 0x61);
    } else if n == 11 {
        assert('b' as u8 == 0x62);
    } else if n == 12 {
        assert('c' as u8 == 0x63);
    } else if n == 13 {
        assert('d' as u8 == 0x64);
    } else if n == 14 {
        assert('e' as u8 == 0x65);
    } else {
        assert('f' as u8 == 0x66);
    }
}

/// The hex text of a key is ASCII.
proof fn lemma_encode_key_ascii(key: Seq<u8>)
    ensures
        is_ascii_chars(encode_key_spec(key)),
{
    let h = encode_key_spec(key);
    assert forall|i: int| 0 <= i < h.len() implies '\0' <= #[trigger] h[i] <= '\u{7f}' by {
        if i % 2 == 0 {
            lemma_hex_digit_value((key[i / 2] / 16) as nat);
        } else {
            lemma_hex_digit_value((key[i / 2] % 16) as nat);
        }
    }
}

/// Decoding the hex text of a key gives the key back, and the text can be
/// cut into two-byte pieces.
pub proof fn lemma_decode_encode_key(key: Seq<u8>)
    requires
        key.len() == 32,
    ensures
        decode_key_spec(encode_utf8(encode_key_spec(key))) == Ok::<_, KeyCacheError>(key),
        key_text_defined(encode_key_spec(key)),
{
    let h = encode_key_spec(key);
    lemma_encode_key_ascii(key);
    vstd::utf8::is_ascii_chars_encode_utf8(h);
    let b = encode_utf8(h);
    assert(b.len() == 64);
    assert forall|i: int| 0 <= i < 32 implies (#[trigger] pair_at(b, i)) == Some(key[i]) by {
        let hi = (key[i] / 16) as nat;
        let lo = (key[i] % 16) as nat;
        lemma_hex_digit_value(hi);
        lemma_hex_digit_value(lo);
        assert(h[2 * i] == hex_digit_spec(hi));
        assert(h[2 * i + 1] == hex_digit_spec(lo));
        assert(b[2 * i] == h[2 * i] as u8);
        assert(b[2 * i + 1] == h[2 * i + 1] as u8);
        assert(hi * 16 + lo == key[i]);
    }
    assert(Seq::new(32, |i: int| pair_at(b, i)->Some_0) =~= key);
    assert forall|i: int| 0 <= i < 32 implies #[trigger] piece_cuttable(b, i) by {
        assert(b[2 * i] == h[2 * i] as u8);
        if 2 * i + 2 < 64 {
            assert(b[2 * i + 2] == h[2 * i + 2] as u8);
        }
    }
}


/// Reading back the trimmed text that caches a key gives the key and its
/// expiry, for every expiry the system clock holds.
pub proof fn lemma_parse_serialize(key: Seq<u8>, expires_at: u64)
    requires
        key.len() == 32,
        expires_at <= MAX_EXPIRY,
    ensures
        parse_defined(trim_spec(serialize_spec(key, expires_at))),
        parse_spec(trim_spec(serialize_spec(key, expires_at))) == Ok::<_, KeyCacheError>(
            (key, expires_at),
        ),
{
    reveal_strlit("expires_at=");
    reveal_strlit("\nkey=");
    reveal_strlit("key=");
    reveal_strlit("\n");
    let p = "expires_at="@;
    let d = decimal_spec(expires_at as nat);
    let n = "\nkey="@;
    let h = encode_key_spec(key);
    let s = serialize_spec(key, expires_at);
    let t = p + d + n + h;
    assert(s =~= t + "\n"@);
    lemma_decimal_digits(expires_at as nat);
    lemma_encode_key_ascii(key);
    lemma_decode_encode_key(key);
    // Trimming removes only the final newline.
    assert(s[0] == 'e');
    assert(trim_start_spec(s) == s);
    assert(s.drop_last() =~= t);
    let last = h[63];
    assert(h[63] == hex_digit_spec((key[31] % 16) as nat));
    lemma_hex_digit_value((key[31] % 16) as nat);
    assert(!is_whitespace_spec(last));
    assert(t.last() == last);
    assert(trim_end_spec(t) == t);
    assert(trim_end_spec(s) == trim_end_spec(s.drop_last()));
    assert(trim_spec(s) == t);
    // The first newline ends the expiry line.
    let nl: int = p.len() as int + d.len() as int;
    assert forall|k: int| 0 <= k < nl implies !is_char('\n')(#[trigger] t[k]) by {
        if k >= p.len() {
            assert(t[k] == d[k - p.len()]);
            assert(is_digit_spec(d[k - p.len()]));
        }
    }
    assert(t[nl] == '\n');
    lemma_first_index_found(t, is_char('\n'), nl);
    let expiry = t.subrange(0, nl);
    let rest = t.subrange(nl + 1, t.len() as int);
    assert(expiry =~= p + d);
    assert(expiry.subrange(0, p.len() as int) =~= p);
    assert(expiry.subrange(p.len() as int, expiry.len() as int) =~= d);
    lemma_parse_decimal(expires_at);
    assert(rest =~= "key="@ + h);
    assert(rest.subrange(0, 4) =~= "key="@);
    assert(rest.subrange(4, rest.len() as int) =~= h);
}

} // verus!
