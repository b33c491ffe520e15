//! The KeePass file header: signatures and format version.
use vstd::prelude::*;
use crate::error::AnahtarError;
use crate::text::{push_str, decimal, u64_to_decimal};

verus! {

/// The first signature of every KeePass file.
pub const KEEPASS_FILE_SIGNATURE: u32 = 0x9AA2_D903;
/// The second signature of a KeePass 2 (KDBX) file.
pub const KDBX_SIGNATURE: u32 = 0xB54B_FB67;
/// The second signature of a KeePass 1 (KDB) file.
pub const KDB_SIGNATURE: u32 = 0xB54B_FB65;

/// The format version of a KeePass file.
#[derive(Clone, Copy, PartialEq, Eq, Structural, Debug)]
pub enum KdbxVersion {
    Kdb1 { minor: u16, major: u16 },
    Kdbx { major: u16, minor: u16 },
}

/// The version text, as the tools print it: `KDB 1.0`, `KDBX 4.1`.
pub open spec fn version_text(v: KdbxVersion) -> Seq<char> {
    match v {
        KdbxVersion::Kdb1 { major, minor } => "KDB "@ + decimal(major as nat) + "."@ + decimal(minor as nat),
        KdbxVersion::Kdbx { major, minor } => "KDBX "@ + decimal(major as nat) + "."@ + decimal(minor as nat),
    }
}

impl KdbxVersion {
    /// The version text, as the tools print it.
    pub fn display(&self) -> (r: String)
        ensures
            r@ == version_text(*self),
    {
        let (mut r, major, minor) = match self {
            KdbxVersion::Kdb1 { major, minor } => ("KDB ".to_owned(), *major, *minor),
            KdbxVersion::Kdbx { major, minor } => ("KDBX ".to_owned(), *major, *minor),
        };
        push_str(&mut r, u64_to_decimal(major as u64).as_str());
        push_str(&mut r, ".");
        push_str(&mut r, u64_to_decimal(minor as u64).as_str());
        r
    }
}

/// The little-endian value of the four bytes of `b` at `i`.
pub open spec fn le32(b: Seq<u8>, i: int) -> int {
    b[i] + 256 * b[i + 1] + 65536 * b[i + 2] + 16777216 * b[i + 3]
}

/// The little-endian value of the two bytes of `b` at `i`.
pub open spec fn le16(b: Seq<u8>, i: int) -> int {
    b[i] + 256 * b[i + 1]
}

/// What the first twelve bytes of a file say of its format: the version
/// where the signatures are KeePass ones, else the two signatures.
pub open spec fn header_reads(b: Seq<u8>, r: Result<KdbxVersion, AnahtarError>) -> bool {
    if b.len() < 12 {
        r matches Err(AnahtarError::HeaderTooShort)
    } else {
        let s1 = le32(b, 0);
        let s2 = le32(b, 4);
        let minor = le16(b, 8);
        let major = le16(b, 10);
        if s1 == KEEPASS_FILE_SIGNATURE && s2 == KDBX_SIGNATURE {
            r matches Ok(KdbxVersion::Kdbx { major: a, minor: i }) && a == major && i == minor
        } else if s1 == KEEPASS_FILE_SIGNATURE && s2 == KDB_SIGNATURE {
            r matches Ok(KdbxVersion::Kdb1 { major: a, minor: i }) && a == major && i == minor
        } else {
            r matches Err(AnahtarError::UnknownSignature { signature1, signature2 }) && signature1 == s1 && signature2 == s2
        }
    }
}

fn read_le32(b: &[u8], i: usize) -> (r: u32)
    requires
        i + 4 <= b@.len(),
    ensures
        r == le32(b@, i as int),
{
    (b[i] as u32) + (b[i + 1] as u32) * 256 + (b[i + 2] as u32) * 65536 + (b[i + 3] as u32) * 16777216
}

fn read_le16(b: &[u8], i: usize) -> (r: u16)
    requires
        i + 2 <= b@.len(),
    ensures
        r == le16(b@, i as int),
{
    (b[i] as u16) + (b[i + 1] as u16) * 256
}

/// Reads the format version from the leading bytes of a file.
pub fn parse_header(header: &[u8]) -> (r: Result<KdbxVersion, AnahtarError>)
    ensures
        header_reads(header@, r),
{
    if header.len() < 12 {
        return Err(AnahtarError::HeaderTooShort);
    }
    let sig1 = read_le32(header, 0);
    let sig2 = read_le32(header, 4);
    let minor = read_le16(header, 8);
    let major = read_le16(header, 10);
    if sig1 == KEEPASS_FILE_SIGNATURE && sig2 == KDBX_SIGNATURE {
        Ok(KdbxVersion::Kdbx { major, minor })
    } else if sig1 == KEEPASS_FILE_SIGNATURE && sig2 == KDB_SIGNATURE {
        Ok(KdbxVersion::Kdb1 { major, minor })
    } else {
        Err(AnahtarError::UnknownSignature { signature1: sig1, signature2: sig2 })
    }
}

/// What the header of a vault file tells without unlocking it.
#[derive(Debug)]
pub struct VaultInfo {
    pub path: String,
    pub file_size_bytes: u64,
    pub version: KdbxVersion,
}

/// The header facts of the file at `path`, from its leading bytes and its
/// size: the version as [`parse_header`] reads it, or its error.
pub fn inspect_header(path: &str, leading_bytes: &[u8], file_size_bytes: u64) -> (r: Result<VaultInfo, AnahtarError>)
    ensures
        header_reads(leading_bytes@, match r { Ok(info) => Ok(info.version), Err(e) => Err(e) }),
        r matches Ok(info) ==> info.path@ == path@ && info.file_size_bytes == file_size_bytes,
{
    match parse_header(leading_bytes) {
        Ok(version) => Ok(VaultInfo { path: path.to_owned(), file_size_bytes, version }),
        Err(e) => Err(e),
    }
}

} // verus!
