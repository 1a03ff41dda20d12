//! The records of the libraries that a module exports.

use vstd::prelude::*;
use crate::nid::Nid;
use crate::sce_types::Address;
use crate::sce_types::Ptr;
use crate::sce_types::USize;

verus! {

/// Common beginning of the records of an exported library.
#[derive(Debug, Clone, Copy)]
pub struct SceLibraryEntryCommon {
    /// Size of the record in bytes (usually 0x1C or 0x20)
    pub size: u8,
    /// Unknown
    pub auxattribute: u8,
    /// Library version (usually 1)
    pub version: u16,
    /// Library attribute flags
    pub attribute: u16,
    /// Number of exported functions
    pub nfunc: u16,
    /// Number of exported variables
    pub nvar: u16,
    /// Number of exported thread-local variables
    pub ntls: u16,
    pub hashinfo: HashInfo,
    pub reserved: u8,
    /// Unknown, usually 0
    pub nidaltsets: u8,
}

/// The record of an exported library, in 0x1C bytes.
#[derive(Debug, Clone, Copy)]
pub struct SceLibraryEntrySized1C {
    pub common: SceLibraryEntryCommon,
    /// Pointer to the name of the library; 0 for the main export
    pub libname: Ptr<u8>,
    /// Pointer to the identifiers of the exports
    pub nid_table: Ptr<Nid>,
    /// Pointer to the addresses of the exports
    pub entry_table: Ptr<Address>,
}

/// The record of an exported library, in 0x20 bytes.
#[derive(Debug, Clone, Copy)]
pub struct SceLibraryEntrySized20 {
    pub common: SceLibraryEntryCommon,
    /// Identifier of the library
    pub libname_nid: Nid,
    /// Pointer to the name of the library; 0 for the main export
    pub libname: Ptr<u8>,
    /// Pointer to the identifiers of the exports
    pub nid_table: Ptr<Nid>,
    /// Pointer to the addresses of the exports
    pub entry_table: Ptr<Address>,
}

/// The record of an exported library in its current form.
pub type SceLibraryEntry = SceLibraryEntrySized20;

/// How the tables of a library's exports are hashed: one hexadecimal digit
/// each for the functions, the variables and the thread-local variables.
#[derive(Debug, Clone, Copy, PartialEq, Eq, Structural)]
pub struct HashInfo(pub u16);

/// Number of exports from which on a table is hashed.
pub const LIMIT: u16 = 0x10;

/// The digit for a table of `exports` entries: 0 below 16, 2 below 64,
/// 4 below 256, 6 from there on.
pub open spec fn hash_digit(exports: u16) -> u16 {
    if exports < 0x10 {
        0x0
    } else if exports < 0x40 {
        0x2
    } else if exports < 0x100 {
        0x4
    } else {
        0x6
    }
}

impl HashInfo {
    fn calculate(exports: u16) -> (r: u16)
        ensures
            r == hash_digit(exports),
    {
        if exports < LIMIT {
            0x0
        } else if exports < 0x40 {
            0x2
        } else if exports < 0x100 {
            0x4
        } else {
            0x6
        }
    }

    /// The hash information of a library with so many exported functions,
    /// variables and thread-local variables: the digit of the functions
    /// lowest, that of the thread-local variables highest.
    pub fn new(functions: u16, variables: u16, tls: u16) -> (r: HashInfo)
        ensures
            r.0 == hash_digit(functions) + hash_digit(variables) * 0x10 + hash_digit(tls) * 0x100,
    {
        let f = HashInfo::calculate(functions);
        let v = HashInfo::calculate(variables);
        let t = HashInfo::calculate(tls);
        assert(f < 8 && v < 8 && t < 8 ==> (f | v << 4 | t << 8) == f + v * 0x10 + t * 0x100) by (bit_vector);
        HashInfo(f | v << 4 | t << 8)
    }
}

/// The thread that runs the entry functions of a module.
#[derive(Debug, Clone, Copy)]
pub struct SceModuleEntryThread {
    /// The number of entry thread parameters, typically 3.
    pub num_params: u32,
    /// The initial priority of the entry thread.
    pub init_priority: u32,
    /// The stack size of the entry thread.
    pub stack_size: USize,
    /// The attributes of the entry thread.
    pub attr: u32,
}

/// The parameters of a process, in 0x34 bytes.
#[derive(Debug, Clone, Copy)]
pub struct SceProcessParam {
    /// Size of this record, `0x34`
    pub size: USize,
    /// "PSP2"
    pub magic: u32,
    /// Version of the record
    pub ver: u32,
    /// Version of the development kit
    pub fw_ver: u32,
    /// Pointer to the name of the main thread
    pub user_main_thread_name: Ptr<u8>,
    /// Priority of the main thread
    pub user_main_thread_priority: i32,
    /// Stack size of the main thread
    pub user_main_thread_stack_size: u32,
    /// Unknown
    pub user_main_thread_attribute: u32,
    /// Pointer to the name of the process
    pub process_name: Ptr<u8>,
    /// Module load inhibit
    pub process_preload_disabled: u32,
    /// Unknown
    pub user_main_thread_cpu_affinity_mask: u32,
    pub sce_libc_param: Ptr<SceLibcParam>,
    pub unknown: u32,
}

/// The parameters of the C library, in 0x38 bytes.
#[derive(Debug, Clone, Copy)]
pub struct SceLibcParam {
    /// 0x38
    pub size: u32,
    /// Unknown
    pub unk_04: u32,
    /// Heap size variable
    pub heap_size: Ptr<u32>,
    /// Default heap size variable
    pub default_heap_size: Ptr<u32>,
    /// Dynamically extend heap size
    pub heap_extended_alloc: Ptr<u32>,
    /// Allocate heap on first call to malloc
    pub heap_delayed_alloc: Ptr<u32>,
    /// Version of the development kit
    pub fw_version: u32,
    /// Unknown, set to 9
    pub unk_1c: u32,
    /// Replacements of the allocation functions
    pub malloc_replace: Ptr<MallocReplace>,
    /// Replacements of the operators `new` and `delete`
    pub operator_new_replace: Ptr<OperatorNewReplace>,
    /// Dynamically allocated heap initial size
    pub heap_initial_size: Ptr<u32>,
    /// Change alloc unit size from 64k to 1M
    pub heap_unit_1mb: Ptr<u32>,
    /// Detect heap buffer overruns
    pub heap_detect_overrun: Ptr<u32>,
    /// Replacements of the allocation functions for thread-local storage
    pub malloc_for_tls_replace: Ptr<MallocForTlsReplace>,
}

/// Replacements of the allocation functions, in 0x34 bytes.
#[derive(Debug, Clone, Copy)]
pub struct MallocReplace {
    /// 0x34
    pub size: u32,
    /// Unknown, set to 1
    pub unk_0x4: u32,
    pub malloc_init: Address,
    pub malloc_term: Address,
    pub malloc: Address,
    pub free: Address,
    pub calloc: Address,
    pub realloc: Address,
    pub memalign: Address,
    pub reallocalign: Address,
    pub malloc_stats: Address,
    pub malloc_stats_fast: Address,
    pub malloc_usable_size: Address,
}

/// Replacements of the operators `new` and `delete`, in 0x28 bytes.
#[derive(Debug, Clone, Copy)]
pub struct OperatorNewReplace {
    /// 0x28
    pub size: u32,
    /// Unknown, set to 1
    pub unk_0x4: u32,
    pub operator_new: Address,
    pub operator_new_nothrow: Address,
    pub operator_new_arr: Address,
    pub operator_new_arr_nothrow: Address,
    pub operator_delete: Address,
    pub operator_delete_nothrow: Address,
    pub operator_delete_arr: Address,
    pub operator_delete_arr_nothrow: Address,
}

/// Replacements of the allocation functions for thread-local storage, in
/// 0x18 bytes.
#[derive(Debug, Clone, Copy)]
pub struct MallocForTlsReplace {
    /// 0x18
    pub size: u32,
    /// Unknown, set to 1
    pub unk_0x4: u32,
    pub malloc_init_for_tls: Address,
    pub malloc_term_for_tls: Address,
    pub malloc_for_tls: Address,
    pub free_for_tls: Address,
}

} // verus!
