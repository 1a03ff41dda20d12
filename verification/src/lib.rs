//! Front end of a cross-compiling linker: decodes an `ld`-compatible argument
//! vector and an optional version script into a validated link description.

pub mod ascii;
pub mod codegen;
pub mod compat_args;
pub mod glob_model;
pub mod glob_pattern;
pub mod glob_set;
pub mod input;
pub mod ld_compat_args;
pub mod lexicographic;
pub mod nid;
pub mod sce_types;
pub mod version_script;
