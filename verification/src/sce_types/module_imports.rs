//! The records of the libraries that a module imports.

use vstd::prelude::*;
use crate::sce_types::Ptr;
use crate::sce_types::USize;

verus! {

/// Common beginning of the records of an imported library.
#[derive(Debug, Clone, Copy)]
pub struct SceModuleImportCommon {
    /// Size of the record (usually 0x24, 0x2C or 0x34)
    pub size: u16,
    /// Set to 0x1
    pub version: u16,
    /// Attributes of the library; set to 0x0
    pub flags: u16,
    /// Number of function imports
    pub num_syms_funcs: u16,
    /// Number of variable imports
    pub num_syms_vars: u16,
    /// Number of imports of thread-local variables
    pub num_syms_tls_vars: u16,
}

/// The record of an imported library, in 0x24 bytes.
#[derive(Debug, Clone, Copy)]
pub struct SceModuleImportSized24 {
    pub common: SceModuleImportCommon,
    /// Identifier of the library to import
    pub library_nid: u32,
    /// Pointer to the name of the library
    pub library_name: Ptr<u8>,
    /// Pointer to the identifiers of the functions to import
    pub func_nid_table: Ptr<u32>,
    /// Pointer to the stubs to fill
    pub func_entry_table: Ptr<Ptr<FunctionStubPlaceholder>>,
    /// Pointer to the identifiers of the variables to import
    pub var_nid_table: Ptr<u32>,
    /// Pointer to the places to write to
    pub var_entry_table: Ptr<Ptr<SceVariableRelocations>>,
}

/// The record of an imported library, in 0x34 bytes.
#[derive(Debug, Clone, Copy)]
pub struct SceModuleImportSized34 {
    pub common: SceModuleImportCommon,
    pub reserved: u32,
    /// Identifier of the library to import
    pub library_nid: u32,
    /// Pointer to the name of the library
    pub library_name: Ptr<u8>,
    /// Usually 0
    pub sce_sdk_version: u32,
    /// Pointer to the identifiers of the functions to import
    pub func_nid_table: Ptr<u32>,
    /// Pointer to the stubs to fill
    pub func_entry_table: Ptr<Ptr<FunctionStubPlaceholder>>,
    /// Pointer to the identifiers of the variables to import
    pub var_nid_table: Ptr<u32>,
    /// Pointer to the places to write to
    pub var_entry_table: Ptr<Ptr<SceVariableRelocations>>,
    /// Pointer to the identifiers of the thread-local variables to import
    pub tls_var_nid_table: Ptr<u32>,
    /// Pointer to the places to write to
    pub tls_var_entry_table: Ptr<Ptr<SceVariableRelocations>>,
}

/// The record of an imported library in its current form.
pub type SceModuleImport = SceModuleImportSized34;

/// The code that stands for an imported function until it is resolved.
#[derive(Debug, Clone, Copy, PartialEq, Eq)]
pub struct FunctionStubPlaceholder {
    pub text: [u8; 16],
}

/// The bytes of the stub: `mvn r0, #0`, `bx lr`, `mov r0, r0`, and four
/// bytes of padding, each instruction written from its highest byte down.
pub open spec fn stub_text() -> Seq<u8> {
    seq![
        0xe3u8, 0xe0, 0x00, 0x00,
        0xe1, 0x2f, 0xff, 0x1e,
        0xe1, 0xa0, 0x00, 0x00,
        0x00, 0x00, 0x00, 0x00,
    ]
}

impl FunctionStubPlaceholder {
    /// The stub of an unresolved function.
    pub fn new() -> (r: FunctionStubPlaceholder)
        ensures
            r.text@ == stub_text(),
    {
        let text: [u8; 16] = [
            0xe3, 0xe0, 0x00, 0x00,
            0xe1, 0x2f, 0xff, 0x1e,
            0xe1, 0xa0, 0x00, 0x00,
            0x00, 0x00, 0x00, 0x00,
        ];
        proof {
            assert(text@ =~= stub_text());
        }
        FunctionStubPlaceholder { text }
    }
}

impl Default for FunctionStubPlaceholder {
    fn default() -> (r: FunctionStubPlaceholder)
        ensures
            r.text@ == stub_text(),
    {
        FunctionStubPlaceholder::new()
    }
}

/// The relocations of an imported variable.
#[derive(Debug, Clone, Copy)]
pub struct SceVariableRelocations {
    pub length: USize,
    pub relocations: Ptr<()>,
}

} // verus!
