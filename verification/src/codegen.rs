//! What the writer of the module image is told about its input.

pub mod verification;

use vstd::prelude::*;

verus! {

/// The kinds of item that a module exports or imports.
#[derive(Debug, Clone, Copy, PartialEq, Eq, PartialOrd, Ord, Structural)]
pub enum ItemType {
    Function,
    Variable,
    TLS,
}

} // verus!
