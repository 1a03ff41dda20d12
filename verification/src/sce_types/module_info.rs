//! The record that describes a module.

use vstd::prelude::*;
use crate::sce_types::module_exports::SceLibraryEntry;
use crate::sce_types::module_imports::SceModuleImport;
use crate::sce_types::Address;
use crate::sce_types::AddressRange;
use crate::sce_types::PtrRange;
use crate::sce_types::USize;

verus! {

/// Length of the field that holds the name of a module.
pub const MODULE_NAME_MAX_LEN: usize = 27;

/// The module cannot be stopped.
pub const CANT_STOP: u16 = 0x0001;

/// No second copy of the module may be loaded.
pub const EXCLUSIVE_LOAD: u16 = 0x0002;

/// No second copy of the module may be started.
pub const EXCLUSIVE_START: u16 = 0x0004;

/// Every bit that is an attribute of a module.
pub const MODULE_ATTRIBUTES: u16 = 0x0007;

/// Lowest permission.
pub const USER: u16 = 0x0000;

/// Memory stick module.
pub const MS: u16 = 0x0200;

/// USB and wireless module.
pub const USBWLAN: u16 = 0x0400;

/// Application module.
pub const APP: u16 = 0x0600;

/// Shell module.
pub const VSH: u16 = 0x0800;

/// Kernel module; highest permission.
pub const KERNEL: u16 = 0x1000;

/// The module uses the resident library of the first security engine.
pub const KIRK_MEMLMD_LIB: u16 = 0x2000;

/// The module uses the semaphore library of the security engine.
pub const KIRK_SEMAPHORE_LIB: u16 = 0x4000;

/// Every bit that belongs to a privilege level.
pub const PRIVILEGE_LEVELS: u16 = 0x7e00;

/// The attributes of a module, one bit for each.
#[derive(Debug, Clone, Copy, PartialEq, Eq, Structural)]
pub struct SceModuleAttribute {
    bits: u16,
}

impl SceModuleAttribute {
    #[verifier::type_invariant]
    spec fn known_bits_only(self) -> bool {
        self.bits & !MODULE_ATTRIBUTES == 0
    }

    /// The attributes as a number.
    pub closed spec fn spec_bits(self) -> u16 {
        self.bits
    }

    /// The attributes as a number.
    #[verifier::when_used_as_spec(spec_bits)]
    pub fn bits(self) -> (r: u16)
        ensures
            r == self.spec_bits(),
            r & !MODULE_ATTRIBUTES == 0,
    {
        proof {
            use_type_invariant(self);
        }
        self.bits
    }

    /// The attributes among the bits of `bits`; the other bits are dropped.
    pub fn from_bits_truncate(bits: u16) -> (r: SceModuleAttribute)
        ensures
            r.bits() == bits & MODULE_ATTRIBUTES,
    {
        assert((bits & MODULE_ATTRIBUTES) & !MODULE_ATTRIBUTES == 0) by (bit_vector)
            requires
                MODULE_ATTRIBUTES == 0x0007u16,
        ;
        SceModuleAttribute { bits: bits & MODULE_ATTRIBUTES }
    }

    /// Every attribute.
    pub fn all() -> (r: SceModuleAttribute)
        ensures
            r.bits() == MODULE_ATTRIBUTES,
    {
        assert(0x0007u16 & 0x0007u16 == 0x0007u16) by (bit_vector);
        SceModuleAttribute::from_bits_truncate(MODULE_ATTRIBUTES)
    }
}

/// The privilege level of a module, as a set of bits.
#[derive(Debug, Clone, Copy, PartialEq, Eq, Structural)]
pub struct SceModulePrivilegeLevel {
    bits: u16,
}

impl SceModulePrivilegeLevel {
    #[verifier::type_invariant]
    spec fn known_bits_only(self) -> bool {
        self.bits & !PRIVILEGE_LEVELS == 0
    }

    /// The level as a number.
    pub closed spec fn spec_bits(self) -> u16 {
        self.bits
    }

    /// The level as a number.
    #[verifier::when_used_as_spec(spec_bits)]
    pub fn bits(self) -> (r: u16)
        ensures
            r == self.spec_bits(),
            r & !PRIVILEGE_LEVELS == 0,
    {
        proof {
            use_type_invariant(self);
        }
        self.bits
    }

    /// The level among the bits of `bits`; the other bits are dropped.
    pub fn from_bits_truncate(bits: u16) -> (r: SceModulePrivilegeLevel)
        ensures
            r.bits() == bits & PRIVILEGE_LEVELS,
    {
        assert((bits & PRIVILEGE_LEVELS) & !PRIVILEGE_LEVELS == 0) by (bit_vector)
            requires
                PRIVILEGE_LEVELS == 0x7e00u16,
        ;
        SceModulePrivilegeLevel { bits: bits & PRIVILEGE_LEVELS }
    }

    /// Every bit of a level.
    pub fn all() -> (r: SceModulePrivilegeLevel)
        ensures
            r.bits() == PRIVILEGE_LEVELS,
    {
        assert(0x7e00u16 & 0x7e00u16 == 0x7e00u16) by (bit_vector);
        SceModulePrivilegeLevel::from_bits_truncate(PRIVILEGE_LEVELS)
    }
}

/// The attributes and the privilege level of a module in one number.
#[derive(Debug, Clone, Copy, PartialEq, Eq, PartialOrd, Ord, Hash, Structural)]
pub struct RawAttributes(pub u16);

/// The bits of `raw` that belong neither to an attribute nor to a level.
pub open spec fn unknown_bits(raw: u16) -> u16 {
    raw & !(MODULE_ATTRIBUTES | PRIVILEGE_LEVELS)
}

impl RawAttributes {
    /// Joins attributes and privilege level.
    pub fn new(attrs: SceModuleAttribute, privilege: SceModulePrivilegeLevel) -> (r: RawAttributes)
        ensures
            r.0 == attrs.bits() | privilege.bits(),
            r.0 & MODULE_ATTRIBUTES == attrs.bits(),
            r.0 & PRIVILEGE_LEVELS == privilege.bits(),
            unknown_bits(r.0) == 0,
    {
        let a = attrs.bits();
        let p = privilege.bits();
        assert((a & !MODULE_ATTRIBUTES == 0 && p & !PRIVILEGE_LEVELS == 0) ==> ((a | p) & MODULE_ATTRIBUTES == a
            && (a | p) & PRIVILEGE_LEVELS == p && (a | p) & !(MODULE_ATTRIBUTES | PRIVILEGE_LEVELS) == 0))
            by (bit_vector)
            requires
                MODULE_ATTRIBUTES == 0x0007u16,
                PRIVILEGE_LEVELS == 0x7e00u16,
        ;
        RawAttributes(a | p)
    }

    /// The attributes and the level among the bits of the number, where it
    /// holds a bit that belongs to neither; `None` where every bit belongs
    /// to one of the two.
    pub fn try_into_pair(self) -> (r: Option<(SceModuleAttribute, SceModulePrivilegeLevel)>)
        ensures
            match r {
                None => unknown_bits(self.0) == 0,
                Some((attrs, privilege)) => unknown_bits(self.0) != 0 && attrs.bits() == self.0
                    & MODULE_ATTRIBUTES && privilege.bits() == self.0 & PRIVILEGE_LEVELS,
            },
    {
        let all_attrs = SceModuleAttribute::all().bits();
        let all_levels = SceModulePrivilegeLevel::all().bits();
        if self.0 & !(all_attrs | all_levels) == 0 {
            return None;
        }
        Some(
            (
                SceModuleAttribute::from_bits_truncate(self.0),
                SceModulePrivilegeLevel::from_bits_truncate(self.0),
            ),
        )
    }
}

/// Common beginning of the records that describe a module.
#[derive(Debug, Clone, Copy)]
pub struct SceModuleInfoCommon {
    /// Attributes and privilege level of the module
    pub attributes: RawAttributes,
    /// Major version of the module followed by its minor version (both usually 1)
    pub module_version: [u8; 2],
    /// Name of the module, ended by a zero byte
    pub name: [u8; 27],
    /// Version of the record
    pub info_version: u8,
}

/// The export and import tables of a module.
#[derive(Debug, Clone, Copy)]
pub struct PublicApi {
    /// Exports array
    pub exports: PtrRange<SceLibraryEntry>,
    /// Imports array
    pub imports: PtrRange<SceModuleImport>,
}

/// Global pointer value; always 0 on this target.
#[derive(Debug, Clone, Copy)]
pub struct GPValue(pub Address);

/// A hash of the module that tells versions apart.
#[derive(Debug, Clone, Copy)]
pub struct DebugFingerprint(pub u32);

/// The entry points of a module.
#[derive(Debug, Clone, Copy)]
pub struct Entries {
    /// Offset to the start function; all bits set where there is none
    pub start_entry: Address,
    /// Offset to the stop function; all bits set where there is none
    pub stop_entry: Address,
}

/// The thread-local storage of a module.
#[derive(Debug, Clone, Copy)]
pub struct TlsInfo {
    /// Offset to start of the thread-local storage
    pub tls_start: Address,
    /// Size of the initialised part
    pub tls_filesz: USize,
    /// Size of the whole
    pub tls_memsz: USize,
}

/// Address range of the exception index table (optional).
#[derive(Debug, Clone, Copy)]
pub struct ArmExidx(pub AddressRange);

/// Address range of the exception table (optional).
#[derive(Debug, Clone, Copy)]
pub struct ArmExtab(pub AddressRange);

/// The module record of version 0.
#[derive(Debug, Clone, Copy)]
pub struct SceModuleInfoV0 {
    pub common: SceModuleInfoCommon,
    pub gp_value: GPValue,
    pub public_api: PublicApi,
}

/// The module record of version 1.
#[derive(Debug, Clone, Copy)]
pub struct SceModuleInfoV1 {
    pub common: SceModuleInfoCommon,
    pub gp_value: GPValue,
    pub public_api: PublicApi,
    pub debug_fingerprint: DebugFingerprint,
    pub entries: Entries,
}

/// The module record of version 2.
#[derive(Debug, Clone, Copy)]
pub struct SceModuleInfoV2 {
    pub common: SceModuleInfoCommon,
    pub gp_value: GPValue,
    pub public_api: PublicApi,
    pub debug_fingerprint: DebugFingerprint,
    pub entries: Entries,
    pub arm_exidx: ArmExidx,
}

/// The module record of version 3.
#[derive(Debug, Clone, Copy)]
pub struct SceModuleInfoV3 {
    pub common: SceModuleInfoCommon,
    pub gp_value: GPValue,
    pub public_api: PublicApi,
    pub debug_fingerprint: DebugFingerprint,
    pub entries: Entries,
    pub arm_exidx: ArmExidx,
    pub tls: TlsInfo,
}

/// The module record of version 6.
#[derive(Debug, Clone, Copy)]
pub struct SceModuleInfoV6 {
    pub common: SceModuleInfoCommon,
    pub gp_value: GPValue,
    pub public_api: PublicApi,
    pub debug_fingerprint: DebugFingerprint,
    pub tls: TlsInfo,
    pub entries: Entries,
    pub arm_exidx: ArmExidx,
    pub arm_extab: ArmExtab,
}

/// The module record in its current version.
pub type SceModuleInfo = SceModuleInfoV6;

} // verus!
