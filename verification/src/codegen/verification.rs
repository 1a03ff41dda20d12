//! The check of an object file's header.

use vstd::prelude::*;

verus! {

/// The operating system interface of the objects that can be linked.
pub const ELFOSABI_SYSV: u8 = 0;

/// The machine of the objects that can be linked.
pub const EM_ARM: u16 = 40;

/// The fields of an object file's header that decide whether the file can
/// be linked.
#[derive(Debug, Clone, Copy, PartialEq, Eq, Structural)]
pub struct VerifyHeader {
    pub os_abi: u8,
    pub machine: u16,
    pub e_version: u32,
}

/// The header of a file that cannot be linked.
#[derive(Debug, Clone, Copy, PartialEq, Eq, Structural)]
pub struct VerifyHeaderError(pub VerifyHeader);

/// The header fields of the files that can be linked.
pub open spec fn expected() -> VerifyHeader {
    VerifyHeader { os_abi: ELFOSABI_SYSV, machine: EM_ARM, e_version: 1 }
}

impl VerifyHeader {
    /// The header fields of the files that can be linked.
    pub fn expected() -> (r: VerifyHeader)
        ensures
            r == expected(),
    {
        VerifyHeader { os_abi: ELFOSABI_SYSV, machine: EM_ARM, e_version: 1 }
    }
}

/// Accepts the header of a file that can be linked, and no other.
pub fn validate_header(header: &VerifyHeader) -> (r: Result<(), VerifyHeaderError>)
    ensures
        match r {
            Ok(_) => *header == expected(),
            Err(e) => *header != expected() && e.0 == *header,
        },
{
    if header.os_abi == ELFOSABI_SYSV && header.machine == EM_ARM && header.e_version == 1 {
        Ok(())
    } else {
        Err(VerifyHeaderError(*header))
    }
}

} // verus!
