//! The vault file format: a fixed 64-byte header (magic bytes, format
//! version, salt, nonce, reserved bytes) followed by the ciphertext.

use vstd::prelude::*;

use crate::crypto::{Nonce, Salt, NONCE_LENGTH, SALT_LENGTH};
use crate::text::{decimal, decimal_spec};
use vstd::string::StringExecFns;

verus! {

/// Length in bytes of the vault header.
pub const HEADER_LEN: usize = 64;

/// Length in bytes of the magic bytes that open a vault file.
pub const MAGIC_LEN: usize = 6;

/// Length in bytes of the format version.
pub const VERSION_LEN: usize = 2;

/// Length in bytes of the reserved, zero-filled tail of the header.
pub const RESERVED_LEN: usize = 12;

/// The vault format version this library reads and writes.
pub const VERSION: u16 = 1;

/// The magic bytes `SWYVLT` that identify a vault file.
pub open spec fn magic_spec() -> Seq<u8> {
    seq![0x53u8, 0x57u8, 0x59u8, 0x56u8, 0x4cu8, 0x54u8]
}

/// The little-endian encoding of a `u16`.
pub open spec fn le_u16_spec(v: u16) -> Seq<u8> {
    seq![(v % 256) as u8, (v / 256) as u8]
}

/// The value of two little-endian bytes.
pub open spec fn from_le_u16_spec(lo: u8, hi: u8) -> u16 {
    (lo as int + 256 * (hi as int)) as u16
}

/// The header written for a vault with this salt and nonce.
pub open spec fn header_spec(salt: Seq<u8>, nonce: Seq<u8>) -> Seq<u8> {
    magic_spec() + le_u16_spec(VERSION) + salt + nonce + Seq::new(
        RESERVED_LEN as nat,
        |i: int| 0u8,
    )
}

/// The bytes of a serialized vault.
pub open spec fn serialized_spec(salt: Seq<u8>, nonce: Seq<u8>, ciphertext: Seq<u8>) -> Seq<u8> {
    header_spec(salt, nonce) + ciphertext
}

/// Why vault bytes were refused.
#[derive(Debug, Clone, Copy, PartialEq, Eq, Structural)]
pub enum VaultError {
    /// The data is shorter than the header.
    MissingLengthHeader,
    /// The magic bytes are not `SWYVLT`.
    UnsupportedFormat,
    /// The header names a format version other than the supported one.
    UnsupportedVersion(u16),
}

/// The version stored in a header.
pub open spec fn stored_version_spec(data: Seq<u8>) -> u16 {
    from_le_u16_spec(data[6], data[7])
}

/// What reading `data` as a vault gives: the salt, nonce and ciphertext,
/// or the reason it is refused. The length is checked first, then the
/// magic bytes, then the version.
pub open spec fn deserialize_spec(data: Seq<u8>) -> Result<(Seq<u8>, Seq<u8>, Seq<u8>), VaultError> {
    if data.len() < HEADER_LEN {
        Err(VaultError::MissingLengthHeader)
    } else if data.subrange(0, MAGIC_LEN as int) != magic_spec() {
        Err(VaultError::UnsupportedFormat)
    } else if stored_version_spec(data) != VERSION {
        Err(VaultError::UnsupportedVersion(stored_version_spec(data)))
    } else {
        Ok(
            (
                data.subrange(8, 40),
                data.subrange(40, 52),
                data.subrange(HEADER_LEN as int, data.len() as int),
            ),
        )
    }
}

/// The message that describes a vault error.
pub open spec fn vault_error_message_spec(e: VaultError) -> Seq<char> {
    match e {
        VaultError::MissingLengthHeader => "vault data is missing length header"@,
        VaultError::UnsupportedFormat => "unsupported vault format"@,
        VaultError::UnsupportedVersion(v) => "unsupported vault version: "@ + decimal_spec(
            v as nat,
        ),
    }
}

impl VaultError {
    /// The message that describes this error.
    pub fn message(&self) -> (s: String)
        ensures
            s@ == vault_error_message_spec(*self),
    {
        match self {
            VaultError::MissingLengthHeader => String::from_str("vault data is missing length header"),
            VaultError::UnsupportedFormat => String::from_str("unsupported vault format"),
            VaultError::UnsupportedVersion(v) => {
                let s = String::from_str("unsupported vault version: ");
                let d = decimal(*v as u128);
                s.concat(d.as_str())
            },
        }
    }
}

/// An encrypted vault: the salt its key was derived with, the nonce it was
/// sealed with, and the ciphertext.
pub struct Vault {
    pub salt: Salt,
    pub nonce: Nonce,
    pub ciphertext: Vec<u8>,
}

/// The magic bytes as an array.
fn magic() -> (m: [u8; 6])
    ensures
        m@ == magic_spec(),
{
    let m: [u8; 6] = [0x53, 0x57, 0x59, 0x56, 0x4c, 0x54];
    assert(m@ =~= magic_spec());
    m
}

/// `u16::to_le_bytes`.
fn le_u16(v: u16) -> (b: [u8; 2])
    ensures
        b@ == le_u16_spec(v),
{
    let b: [u8; 2] = [(v % 256) as u8, (v / 256) as u8];
    assert(b@ =~= le_u16_spec(v));
    b
}

/// `u16::from_le_bytes`.
fn from_le_u16(b: [u8; 2]) -> (v: u16)
    ensures
        v == from_le_u16_spec(b@[0], b@[1]),
{
    (b[0] as u16) + 256 * (b[1] as u16)
}

/// The `N` bytes of `data` that start at `start`.
fn array_at<const N: usize>(data: &[u8], start: usize) -> (a: [u8; N])
    requires
        start + N <= data@.len(),
    ensures
        a@ == data@.subrange(start as int, start + N),
{
    let mut a: [u8; N] = [0u8; N];
    let mut i: usize = 0;
    while i < N
        invariant
            i <= N,
            start + N <= data@.len(),
            data@.len() == data.len(),
            a@.len() == N,
            forall|k: int| 0 <= k < i ==> a@[k] == data@[start + k],
        decreases N - i,
    {
        a[i] = data[start + i];
        i = i + 1;
    }
    assert(a@ =~= data@.subrange(start as int, start + N));
    a
}

/// Appends the bytes of `bytes` to `out`.
fn push_all(out: &mut Vec<u8>, bytes: &[u8])
    ensures
        final(out)@ == old(out)@ + bytes@,
{
    let n = bytes.len();
    let mut i: usize = 0;
    while i < n
        invariant
            n == bytes@.len(),
            i <= n,
            out@ == old(out)@ + bytes@.take(i as int),
        decreases n - i,
    {
        out.push(bytes[i]);
        i = i + 1;
        assert(out@ =~= old(out)@ + bytes@.take(i as int));
    }
    assert(bytes@.take(n as int) =~= bytes@);
}

/// The vault header as it is laid out on disk.
struct VaultHeader {
    magic: [u8; 6],
    version: [u8; 2],
    salt: [u8; 32],
    nonce: [u8; 12],
    unused: [u8; 12],
}

impl VaultHeader {
    /// The header that describes `vault` in the current format.
    fn from_vault(vault: &Vault) -> (h: VaultHeader)
        ensures
            h.magic@ == magic_spec(),
            h.version@ == le_u16_spec(VERSION),
            h.salt@ == vault.salt@,
            h.nonce@ == vault.nonce@,
            h.unused@ == Seq::new(RESERVED_LEN as nat, |i: int| 0u8),
    {
        let unused: [u8; 12] = [0u8; 12];
        assert(unused@ =~= Seq::new(RESERVED_LEN as nat, |i: int| 0u8));
        VaultHeader {
            magic: magic(),
            version: le_u16(VERSION),
            salt: vault.salt,
            nonce: vault.nonce,
            unused,
        }
    }

    /// The 64 bytes of the header, field after field.
    fn as_bytes(&self) -> (b: Vec<u8>)
        ensures
            b@ == self.magic@ + self.version@ + self.salt@ + self.nonce@ + self.unused@,
    {
        let mut b: Vec<u8> = Vec::new();
        push_all(&mut b, self.magic.as_slice());
        push_all(&mut b, self.version.as_slice());
        push_all(&mut b, self.salt.as_slice());
        push_all(&mut b, self.nonce.as_slice());
        push_all(&mut b, self.unused.as_slice());
        b
    }

    /// Reads a header from its 64 bytes.
    fn read_from_bytes(bytes: &[u8]) -> (h: VaultHeader)
        requires
            bytes@.len() == HEADER_LEN,
        ensures
            h.magic@ == bytes@.subrange(0, 6),
            h.version@ == bytes@.subrange(6, 8),
            h.salt@ == bytes@.subrange(8, 40),
            h.nonce@ == bytes@.subrange(40, 52),
            h.unused@ == bytes@.subrange(52, 64),
    {
        VaultHeader {
            magic: array_at(bytes, 0),
            version: array_at(bytes, 6),
            salt: array_at(bytes, 8),
            nonce: array_at(bytes, 40),
            unused: array_at(bytes, 52),
        }
    }

    /// Checks that the header belongs to a supported vault format: first the
    /// magic bytes, then the version.
    fn validate(&self) -> (r: Result<(), VaultError>)
        ensures
            self.magic@ != magic_spec() ==> r == Err::<(), VaultError>(
                VaultError::UnsupportedFormat,
            ),
            self.magic@ == magic_spec() && from_le_u16_spec(self.version@[0], self.version@[1])
                != VERSION ==> r == Err::<(), VaultError>(
                VaultError::UnsupportedVersion(from_le_u16_spec(self.version@[0], self.version@[1])),
            ),
            self.magic@ == magic_spec() && from_le_u16_spec(self.version@[0], self.version@[1])
                == VERSION ==> r == Ok::<(), VaultError>(()),
    {
        let m = magic();
        let mut i: usize = 0;
        while i < MAGIC_LEN
            invariant
                i <= MAGIC_LEN,
                m@ == magic_spec(),
                self.magic@.len() == MAGIC_LEN,
                forall|k: int| 0 <= k < i ==> self.magic@[k] == m@[k],
            decreases MAGIC_LEN - i,
        {
            if self.magic[i] != m[i] {
                return Err(VaultError::UnsupportedFormat);
            }
            i = i + 1;
        }
        assert(self.magic@ =~= magic_spec());
        let version = from_le_u16(self.version);
        if version != VERSION {
            return Err(VaultError::UnsupportedVersion(version));
        }
        Ok(())
    }
}

impl Vault {
    /// The vault's bytes: the header, then the ciphertext.
    pub fn serialize(self) -> (r: Vec<u8>)
        ensures
            r@ == serialized_spec(self.salt@, self.nonce@, self.ciphertext@),
    {
        let header = VaultHeader::from_vault(&self);
        let mut result = header.as_bytes();
        let mut ciphertext = self.ciphertext;
        result.append(&mut ciphertext);
        result
    }

    /// Reads a vault from its bytes. Data shorter than the header is refused
    /// first, then data with other magic bytes, then data of another version.
    pub fn deserialize(data: Vec<u8>) -> (r: Result<Vault, VaultError>)
        ensures
            match r {
                Ok(v) => deserialize_spec(data@) == Ok::<_, VaultError>(
                    (v.salt@, v.nonce@, v.ciphertext@),
                ),
                Err(e) => deserialize_spec(data@) == Err::<(Seq<u8>, Seq<u8>, Seq<u8>), VaultError>(e),
            },
    {
        if data.len() < HEADER_LEN {
            return Err(VaultError::MissingLengthHeader);
        }
        let mut data = data;
        let ghost bytes = data@;
        let ciphertext = data.split_off(HEADER_LEN);
        let header = VaultHeader::read_from_bytes(data.as_slice());
        proof {
            assert(header.magic@ =~= bytes.subrange(0, MAGIC_LEN as int));
            assert(header.version@[0] == bytes[6] && header.version@[1] == bytes[7]);
            assert(header.salt@ =~= bytes.subrange(8, 40));
            assert(header.nonce@ =~= bytes.subrange(40, 52));
        }
        match header.validate() {
            Ok(()) => {},
            Err(e) => {
                return Err(e);
            },
        }
        Ok(Vault { salt: header.salt, nonce: header.nonce, ciphertext })
    }
}

/// Reading what was written gives back the vault that was written.
pub proof fn lemma_deserialize_serialize(salt: Seq<u8>, nonce: Seq<u8>, ciphertext: Seq<u8>)
    requires
        salt.len() == SALT_LENGTH,
        nonce.len() == NONCE_LENGTH,
    ensures
        deserialize_spec(serialized_spec(salt, nonce, ciphertext)) == Ok::<_, VaultError>(
            (salt, nonce, ciphertext),
        ),
{
    let d = serialized_spec(salt, nonce, ciphertext);
    assert(d.subrange(0, MAGIC_LEN as int) =~= magic_spec());
    assert(d[6] == 1u8 && d[7] == 0u8);
    assert(d.subrange(8, 40) =~= salt);
    assert(d.subrange(40, 52) =~= nonce);
    assert(d.subrange(HEADER_LEN as int, d.len() as int) =~= ciphertext);
}

/// Writing what was read gives back the bytes that were read, when their
/// reserved header bytes are zero (the writer always zeroes them).
pub proof fn lemma_serialize_deserialize(data: Seq<u8>)
    requires
        deserialize_spec(data) is Ok,
        forall|i: int| 52 <= i < HEADER_LEN ==> data[i] == 0u8,
    ensures
        ({
            let (salt, nonce, ciphertext) = deserialize_spec(data)->Ok_0;
            serialized_spec(salt, nonce, ciphertext) == data
        }),
{
    let (salt, nonce, ciphertext) = deserialize_spec(data)->Ok_0;
    let lo = data[6];
    let hi = data[7];
    assert(lo as int + 256 * (hi as int) == 1 || lo as int + 256 * (hi as int) > 0xffff);
    assert(lo == 1u8 && hi == 0u8);
    assert(serialized_spec(salt, nonce, ciphertext) =~= data);
}

} // verus!
