//! Numeric identifiers of exported symbols.

use sha1::Digest;
use sha1::Sha1;
use vstd::prelude::*;
use vstd::string::StringExecFns;
use crate::ascii::ascii;
use crate::ascii::ascii_bytes;
use crate::lexicographic::same_bytes;

verus! {

/// The SHA-1 digest of `data`, a byte string of length 20.
pub uninterp spec fn sha1_digest(data: Seq<u8>) -> Seq<u8>;

/// Calls `Digest::digest` of the crate `sha1` for the hasher `Sha1`: the
/// result is the SHA-1 digest of `data`, which depends on `data` alone.
#[verifier::external_body]
fn sha1(data: &[u8]) -> (digest: [u8; 20])
    ensures
        digest@ == sha1_digest(data@),
{
    Sha1::digest(data).into()
}

/// The identifier of `module_start`.
pub const MODULE_START: u32 = 0x935CD196;

/// The identifier of `module_stop`.
pub const MODULE_STOP: u32 = 0x79F8E492;

/// The identifier of `module_exit`.
pub const MODULE_EXIT: u32 = 0x913482A9;

/// The identifier of `module_bootstart`.
pub const MODULE_BOOTSTART: u32 = 0x5C424D40;

/// The identifier of the variable `module_info`.
pub const MODULE_INFO: u32 = 0x6C2224BA;

/// The identifier of the variable `module_proc_param`.
pub const MODULE_PROC_PARAM: u32 = 0x70FBA1E7;

/// The identifier of the variable `module_sdk_version`.
pub const MODULE_SDK_VERSION: u32 = 0x936C8A78;

/// The number by which the module format names a symbol.
#[derive(Debug, Clone, Copy, PartialEq, Eq, PartialOrd, Ord, Hash, Structural)]
pub struct Nid(pub u32);

/// The number that four bytes spell, the lowest byte first.
pub open spec fn le_u32(b: Seq<u8>) -> int {
    b[0] + b[1] * 0x100 + b[2] * 0x1_0000 + b[3] * 0x100_0000
}

/// The identifier that the format fixes for `name`, if it fixes one.
pub open spec fn predefined(name: Seq<u8>) -> Option<Nid> {
    if name == ascii("module_start"@) {
        Some(Nid(MODULE_START))
    } else if name == ascii("module_stop"@) {
        Some(Nid(MODULE_STOP))
    } else if name == ascii("module_exit"@) {
        Some(Nid(MODULE_EXIT))
    } else if name == ascii("module_bootstart"@) {
        Some(Nid(MODULE_BOOTSTART))
    } else if name == ascii("module_info"@) {
        Some(Nid(MODULE_INFO))
    } else if name == ascii("module_proc_param"@) {
        Some(Nid(MODULE_PROC_PARAM))
    } else if name == ascii("module_sdk_version"@) {
        Some(Nid(MODULE_SDK_VERSION))
    } else {
        None
    }
}

/// The hexadecimal digit for `d`, in upper case.
pub open spec fn hex_digit(d: int) -> Seq<char> {
    if d == 0 {
        "0"@
    } else if d == 1 {
        "1"@
    } else if d == 2 {
        "2"@
    } else if d == 3 {
        "3"@
    } else if d == 4 {
        "4"@
    } else if d == 5 {
        "5"@
    } else if d == 6 {
        "6"@
    } else if d == 7 {
        "7"@
    } else if d == 8 {
        "8"@
    } else if d == 9 {
        "9"@
    } else if d == 10 {
        "A"@
    } else if d == 11 {
        "B"@
    } else if d == 12 {
        "C"@
    } else if d == 13 {
        "D"@
    } else if d == 14 {
        "E"@
    } else {
        "F"@
    }
}

/// The eight hexadecimal digits of `n`, the highest first.
pub open spec fn hex8(n: int) -> Seq<char> {
    hex_digit(n / 0x1000_0000 % 16) + hex_digit(n / 0x100_0000 % 16) + hex_digit(n / 0x10_0000 % 16)
        + hex_digit(n / 0x1_0000 % 16) + hex_digit(n / 0x1000 % 16) + hex_digit(n / 0x100 % 16)
        + hex_digit(n / 0x10 % 16) + hex_digit(n % 16)
}

fn digit_text(d: u32) -> (s: &'static str)
    requires
        d < 16,
    ensures
        s@ == hex_digit(d as int),
{
    if d == 0 {
        "0"
    } else if d == 1 {
        "1"
    } else if d == 2 {
        "2"
    } else if d == 3 {
        "3"
    } else if d == 4 {
        "4"
    } else if d == 5 {
        "5"
    } else if d == 6 {
        "6"
    } else if d == 7 {
        "7"
    } else if d == 8 {
        "8"
    } else if d == 9 {
        "9"
    } else if d == 10 {
        "A"
    } else if d == 11 {
        "B"
    } else if d == 12 {
        "C"
    } else if d == 13 {
        "D"
    } else if d == 14 {
        "E"
    } else {
        "F"
    }
}

impl Nid {
    /// The identifier that a digest gives: its first four bytes, the lowest
    /// first.
    pub fn from_digest(digest: &[u8; 20]) -> (r: Nid)
        ensures
            r.0 == le_u32(digest@.subrange(0, 4)),
    {
        let b0: u32 = digest[0] as u32;
        let b1: u32 = digest[1] as u32;
        let b2: u32 = digest[2] as u32;
        let b3: u32 = digest[3] as u32;
        Nid(b0 + b1 * 0x100 + b2 * 0x1_0000 + b3 * 0x100_0000)
    }

    /// The identifier of the symbol `name`: the first four bytes of the
    /// SHA-1 digest of the name, the lowest first.
    pub fn generate(name: &[u8]) -> (r: Nid)
        ensures
            r.0 == le_u32(sha1_digest(name@).subrange(0, 4)),
    {
        let digest = sha1(name);
        Nid::from_digest(&digest)
    }

    /// The identifier of the symbol whose name is `name`: the first four
    /// bytes of the SHA-1 digest of the name, the lowest first.
    pub fn from_bytes(name: &[u8]) -> (r: Nid)
        ensures
            r.0 == le_u32(sha1_digest(name@).subrange(0, 4)),
    {
        let digest = sha1(name);
        Nid::from_digest(&digest)
    }

    /// The identifier that the format fixes for `name`, if it fixes one.
    pub fn try_get_predefined(name: &[u8]) -> (r: Option<Nid>)
        ensures
            r == predefined(name@),
    {
        if same_bytes(name, ascii_bytes("module_start").as_slice()) {
            Some(Nid(MODULE_START))
        } else if same_bytes(name, ascii_bytes("module_stop").as_slice()) {
            Some(Nid(MODULE_STOP))
        } else if same_bytes(name, ascii_bytes("module_exit").as_slice()) {
            Some(Nid(MODULE_EXIT))
        } else if same_bytes(name, ascii_bytes("module_bootstart").as_slice()) {
            Some(Nid(MODULE_BOOTSTART))
        } else if same_bytes(name, ascii_bytes("module_info").as_slice()) {
            Some(Nid(MODULE_INFO))
        } else if same_bytes(name, ascii_bytes("module_proc_param").as_slice()) {
            Some(Nid(MODULE_PROC_PARAM))
        } else if same_bytes(name, ascii_bytes("module_sdk_version").as_slice()) {
            Some(Nid(MODULE_SDK_VERSION))
        } else {
            None
        }
    }

    /// The identifier as text: `Nid(0x`, its eight hexadecimal digits in
    /// upper case, and `)`.
    pub fn to_string(&self) -> (s: String)
        ensures
            s@ == "Nid(0x"@ + hex8(self.0 as int) + ")"@,
    {
        let n = self.0;
        let mut s = String::from_str("Nid(0x");
        s.append(digit_text(n / 0x1000_0000 % 16));
        s.append(digit_text(n / 0x100_0000 % 16));
        s.append(digit_text(n / 0x10_0000 % 16));
        s.append(digit_text(n / 0x1_0000 % 16));
        s.append(digit_text(n / 0x1000 % 16));
        s.append(digit_text(n / 0x100 % 16));
        s.append(digit_text(n / 0x10 % 16));
        s.append(digit_text(n % 16));
        s.append(")");
        proof {
            assert(s@ =~= "Nid(0x"@ + hex8(n as int) + ")"@);
        }
        s
    }
}

/// The identifier that the format fixes for `name`, if it fixes one.
pub fn try_get_predefined(name: &[u8]) -> (r: Option<Nid>)
    ensures
        r == predefined(name@),
{
    Nid::try_get_predefined(name)
}

} // verus!
