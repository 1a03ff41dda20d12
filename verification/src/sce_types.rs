//! Records of the module format of the target, field by field.

pub mod module_exports;
pub mod module_imports;
pub mod module_info;

use core::marker::PhantomData;
use vstd::prelude::*;

verus! {

/// The width of an address or a size on the target.
pub type USize = u32;

/// An address on the target, at which a value of type `T` stands.
#[derive(Debug, PartialEq, Eq, PartialOrd, Ord, Hash)]
pub struct Ptr<T>(pub USize, pub PhantomData<T>);

impl<T> Clone for Ptr<T> {
    fn clone(&self) -> (r: Self)
        ensures
            r == *self,
    {
        Ptr(self.0, PhantomData)
    }
}

impl<T> Copy for Ptr<T> {

}

impl<T> Ptr<T> {
    /// The pointer to the address `value`.
    pub fn new(value: USize) -> (r: Ptr<T>)
        ensures
            r.0 == value,
    {
        Ptr(value, PhantomData)
    }
}

/// A range of addresses on the target.
#[derive(Debug, PartialEq, Eq)]
pub struct PtrRange<T> {
    /// Offset to top of range
    pub top: Ptr<T>,
    /// Offset to bottom of range
    pub bottom: Ptr<T>,
}

impl<T> Clone for PtrRange<T> {
    fn clone(&self) -> (r: Self)
        ensures
            r == *self,
    {
        PtrRange { top: self.top, bottom: self.bottom }
    }
}

impl<T> Copy for PtrRange<T> {

}

/// An address of no particular type.
pub type Address = Ptr<()>;

/// A range of addresses of no particular type.
pub type AddressRange = PtrRange<()>;

/// The attributes of an exported or imported library, one bit for each.
#[derive(Debug, Clone, Copy, PartialEq, Eq, Structural)]
pub struct SceLibraryAttribute {
    bits: u16,
}

/// Set for the main export, which has no name.
pub const MAIN_EXPORT: u16 = 0x8000;

/// In kernel modules only: lets userland import the library as syscalls.
pub const USER_IMPORTABLE: u16 = 0x4000;

/// A bit of unknown meaning.
pub const UNKNOWN_2000: u16 = 0x2000;

/// The import may stay unresolved.
pub const WEAK_IMPORT: u16 = 0x8;

/// The export is not linked.
pub const NOLINK_EXPORT: u16 = 0x4;

/// The export may be overridden.
pub const WEAK_EXPORT: u16 = 0x2;

/// The library can be imported; set unless it is the main export.
pub const AUTO_EXPORT: u16 = 0x1;

/// Every bit that is an attribute of a library.
pub const LIBRARY_ATTRIBUTES: u16 = 0xe00f;

impl SceLibraryAttribute {
    /// The attributes as a number.
    pub closed spec fn spec_bits(self) -> u16 {
        self.bits
    }

    /// The attributes as a number.
    #[verifier::when_used_as_spec(spec_bits)]
    pub fn bits(self) -> (r: u16)
        ensures
            r == self.spec_bits(),
            r & !LIBRARY_ATTRIBUTES == 0,
    {
        proof {
            use_type_invariant(self);
        }
        self.bits
    }

    #[verifier::type_invariant]
    spec fn known_bits_only(self) -> bool {
        self.bits & !LIBRARY_ATTRIBUTES == 0
    }

    /// The attributes among the bits of `bits`; the other bits are dropped.
    pub fn from_bits_truncate(bits: u16) -> (r: SceLibraryAttribute)
        ensures
            r.bits() == bits & LIBRARY_ATTRIBUTES,
    {
        assert((bits & LIBRARY_ATTRIBUTES) & !LIBRARY_ATTRIBUTES == 0) by (bit_vector)
            requires
                LIBRARY_ATTRIBUTES == 0xe00fu16,
        ;
        SceLibraryAttribute { bits: bits & LIBRARY_ATTRIBUTES }
    }

    /// The attributes that `bits` holds, if all its bits are attributes.
    pub fn from_bits(bits: u16) -> (r: Option<SceLibraryAttribute>)
        ensures
            match r {
                Some(a) => a.bits() == bits && bits & !LIBRARY_ATTRIBUTES == 0,
                None => bits & !LIBRARY_ATTRIBUTES != 0,
            },
    {
        if bits & !LIBRARY_ATTRIBUTES == 0 {
            Some(SceLibraryAttribute { bits })
        } else {
            None
        }
    }

    /// Every attribute.
    pub fn all() -> (r: SceLibraryAttribute)
        ensures
            r.bits() == LIBRARY_ATTRIBUTES,
    {
        assert(0xe00fu16 & 0xe00fu16 == 0xe00fu16) by (bit_vector);
        SceLibraryAttribute::from_bits_truncate(LIBRARY_ATTRIBUTES)
    }

    /// No attribute.
    pub fn empty() -> (r: SceLibraryAttribute)
        ensures
            r.bits() == 0,
    {
        assert(0u16 & 0xe00fu16 == 0u16) by (bit_vector);
        SceLibraryAttribute::from_bits_truncate(0)
    }

    /// Tells whether all the attributes of `other` are among these.
    pub fn contains(self, other: SceLibraryAttribute) -> (r: bool)
        ensures
            r == (self.bits() & other.bits() == other.bits()),
    {
        self.bits & other.bits == other.bits
    }
}

} // verus!
