//! Prefix patterns: a literal byte string, optionally followed by `*`.

use vstd::prelude::*;
use vstd::slice::slice_subrange;
use vstd::slice::slice_to_vec;
use crate::lexicographic::has_prefix;
use crate::lexicographic::same_bytes;
use crate::lexicographic::starts_with;

verus! {

/// The byte that marks a wildcard pattern.
pub const STAR: u8 = 0x2a;

/// Either the exact byte string `prefix` (`has_suffix` is false), or every
/// byte string that begins with `prefix` (`has_suffix` is true, written
/// `prefix*`).
#[derive(Debug, Clone, Copy, PartialEq, Eq)]
pub struct GlobPattern<S> {
    pub has_suffix: bool,
    pub prefix: S,
}

impl<S: View> View for GlobPattern<S> {
    type V = GlobPattern<S::V>;

    open spec fn view(&self) -> GlobPattern<S::V> {
        GlobPattern { has_suffix: self.has_suffix, prefix: self.prefix@ }
    }
}

/// A pattern with the given prefix matches `s`.
pub open spec fn pattern_matches(prefix: Seq<u8>, has_suffix: bool, s: Seq<u8>) -> bool {
    if has_suffix {
        starts_with(s, prefix)
    } else {
        prefix == s
    }
}

impl GlobPattern<Seq<u8>> {
    /// The pattern matches `s`.
    pub open spec fn matches(self, s: Seq<u8>) -> bool {
        pattern_matches(self.prefix, self.has_suffix, s)
    }
}

/// What a pattern's text denotes: with no `*` the text itself; with one `*`,
/// at the very end, every string that begins with what stands before it;
/// nothing otherwise.
pub open spec fn parse_pattern(text: Seq<u8>) -> Option<GlobPattern<Seq<u8>>> {
    if !text.contains(STAR) {
        Some(GlobPattern { has_suffix: false, prefix: text })
    } else if text.last() == STAR && !text.drop_last().contains(STAR) {
        Some(GlobPattern { has_suffix: true, prefix: text.drop_last() })
    } else {
        None
    }
}

/// The text of a pattern holds a `*` that is not its last byte.
#[derive(Debug, Clone, Copy, PartialEq, Eq)]
pub struct ParseGlobPatternError;

impl ParseGlobPatternError {
    /// The message that describes the error.
    pub fn message(&self) -> (r: &'static str)
        ensures
            r@ == "mailformed glob pattern"@,
    {
        "mailformed glob pattern"
    }
}

impl<S> GlobPattern<S> {
    /// The same pattern, with its prefix borrowed.
    pub fn as_ref(&self) -> (r: GlobPattern<&S>)
        ensures
            r.has_suffix == self.has_suffix,
            *r.prefix == self.prefix,
    {
        GlobPattern { has_suffix: self.has_suffix, prefix: &self.prefix }
    }

    /// The same pattern, with its prefix converted by `f`.
    pub fn map_prefix<F, R>(self, f: F) -> (r: GlobPattern<R>) where F: FnOnce(S) -> R
        requires
            f.requires((self.prefix,)),
        ensures
            r.has_suffix == self.has_suffix,
            f.ensures((self.prefix,), r.prefix),
    {
        GlobPattern { prefix: f(self.prefix), has_suffix: self.has_suffix }
    }
}

/// Index of the first `*` in `text`, or its length if it holds none.
fn find_star(text: &[u8]) -> (i: usize)
    ensures
        i <= text@.len(),
        !text@.subrange(0, i as int).contains(STAR),
        i < text@.len() ==> text@[i as int] == STAR,
{
    let mut i: usize = 0;
    while i < text.len()
        invariant
            i <= text@.len(),
            !text@.subrange(0, i as int).contains(STAR),
        decreases text@.len() - i,
    {
        if text[i] == STAR {
            return i;
        }
        proof {
            assert(text@.subrange(0, i + 1) =~= text@.subrange(0, i as int).push(text@[i as int]));
            let t = text@.subrange(0, i as int);
            assert forall|j: int| 0 <= j < i + 1 implies t.push(text@[i as int])[j] != STAR by {
                if j < i {
                    assert(t.contains(t[j]));
                }
            }
        }
        i += 1;
    }
    i
}

impl<'a> GlobPattern<&'a [u8]> {
    /// Reads a pattern from its text, borrowing the prefix from it.
    pub fn try_from(text: &'a [u8]) -> (r: Result<GlobPattern<&'a [u8]>, ParseGlobPatternError>)
        ensures
            match r {
                Ok(p) => parse_pattern(text@) == Some(p@),
                Err(_) => parse_pattern(text@).is_none(),
            },
    {
        let n = text.len();
        let i = find_star(text);
        if i == n {
            proof {
                assert(text@.subrange(0, n as int) =~= text@);
            }
            Ok(GlobPattern { has_suffix: false, prefix: text })
        } else {
            proof {
                assert(text@.contains(text@[i as int]));
            }
            if i + 1 == n {
                proof {
                    assert(text@.subrange(0, i as int) =~= text@.drop_last());
                }
                Ok(GlobPattern { has_suffix: true, prefix: slice_subrange(text, 0, i) })
            } else {
                proof {
                    assert(text@.drop_last()[i as int] == STAR);
                    assert(text@.drop_last().contains(STAR));
                }
                Err(ParseGlobPatternError)
            }
        }
    }
}

impl GlobPattern<Vec<u8>> {
    /// Reads a pattern from its text.
    pub fn from_str(text: &[u8]) -> (r: Result<GlobPattern<Vec<u8>>, ParseGlobPatternError>)
        ensures
            match r {
                Ok(p) => parse_pattern(text@) == Some(p@),
                Err(_) => parse_pattern(text@).is_none(),
            },
    {
        match GlobPattern::<&[u8]>::try_from(text) {
            Ok(p) => Ok(GlobPattern { has_suffix: p.has_suffix, prefix: slice_to_vec(p.prefix) }),
            Err(e) => Err(e),
        }
    }

    /// Tells whether the pattern matches `s`.
    pub fn is_match(&self, s: &[u8]) -> (r: bool)
        ensures
            r == self@.matches(s@),
    {
        if self.has_suffix {
            has_prefix(s, self.prefix.as_slice())
        } else {
            same_bytes(self.prefix.as_slice(), s)
        }
    }
}

} // verus!
