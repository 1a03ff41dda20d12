//! Patterns seen through their prefixes alone.

use vstd::prelude::*;
use vstd::slice::slice_to_vec;
use crate::glob_pattern::GlobPattern;
use crate::lexicographic::compare;
use crate::lexicographic::order_of;
use crate::lexicographic::Order;

verus! {

/// A pattern that is ordered and told apart by its prefix: a wildcard and
/// an exact pattern with one prefix count as the same.
#[derive(Debug, Clone, Copy)]
pub struct PrefixInterface<S>(pub GlobPattern<S>);

impl<S: View> View for PrefixInterface<S> {
    type V = GlobPattern<S::V>;

    open spec fn view(&self) -> GlobPattern<S::V> {
        self.0@
    }
}

impl<'a> PrefixInterface<&'a [u8]> {
    /// The same pattern with a prefix of its own.
    pub fn into_owned(self) -> (r: PrefixInterface<Vec<u8>>)
        ensures
            r@ == self@,
    {
        PrefixInterface(GlobPattern { has_suffix: self.0.has_suffix, prefix: slice_to_vec(self.0.prefix) })
    }

    /// The prefix of the pattern.
    pub fn as_ref(&self) -> (r: &'a [u8])
        ensures
            r@ == self@.prefix,
    {
        self.0.prefix
    }
}

impl PrefixInterface<Vec<u8>> {
    /// The order of this pattern relative to `other`, which is that of
    /// their prefixes.
    pub fn compare(&self, other: &PrefixInterface<Vec<u8>>) -> (r: Order)
        ensures
            r == order_of(self@.prefix, other@.prefix),
    {
        compare(self.0.prefix.as_slice(), other.0.prefix.as_slice())
    }

    /// The prefix of the pattern.
    pub fn as_ref(&self) -> (r: &[u8])
        ensures
            r@ == self@.prefix,
    {
        self.0.prefix.as_slice()
    }
}

} // verus!
