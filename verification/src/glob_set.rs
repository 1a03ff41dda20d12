//! A set of prefix patterns, kept in order of their prefixes and queried by
//! one binary search.

pub mod helpers;

use vstd::prelude::*;
use crate::glob_set::helpers::PrefixInterface;
use vstd::std_specs::cmp::PartialEqSpecImpl;
use crate::glob_model::build;
use crate::glob_model::disjoint;
use crate::glob_model::insert_spec;
use crate::glob_model::is_predecessor;
use crate::glob_model::lemma_insert_disjoint;
use crate::glob_model::lemma_insert_matches;
use crate::glob_model::lemma_predecessor_search_is_scan;
use crate::glob_model::naive_match;
use crate::glob_model::lemma_key_is_matched;
use crate::glob_model::lemma_predecessor_unique;
use crate::glob_model::lemma_shadow_is_predecessor;
use crate::glob_model::lemma_universal_absorbs;
use crate::glob_model::set_matches;
use crate::glob_model::shadowed;
use crate::glob_model::subsumed;
use crate::glob_model::universal;
use crate::glob_pattern::pattern_matches;
use crate::glob_pattern::GlobPattern;
use crate::lexicographic::compare;
use crate::lexicographic::has_prefix;
use crate::lexicographic::lemma_le_transitive;
use crate::lexicographic::lemma_lt_asymmetric;
use crate::lexicographic::lemma_prefix_le;
use crate::lexicographic::lemma_total;
use crate::lexicographic::lex_le;
use crate::lexicographic::lex_lt;
use crate::lexicographic::lt_at;
use crate::lexicographic::same_bytes;
use crate::lexicographic::starts_with;
use crate::lexicographic::Order;

verus! {

/// The least byte string that is greater than every byte string beginning
/// with `p`. There is none when `p` is empty or holds only the byte `0xff`.
pub open spec fn successor_spec(p: Seq<u8>) -> Option<Seq<u8>>
    decreases p.len(),
{
    if p.len() == 0 {
        None
    } else if p.last() == 0xff {
        successor_spec(p.drop_last())
    } else {
        Some(p.drop_last().push((p.last() + 1) as u8))
    }
}

/// `s` lies below the bound `u`, where no bound lets everything pass.
pub open spec fn below(s: Seq<u8>, u: Option<Seq<u8>>) -> bool {
    match u {
        Some(u) => lex_lt(s, u),
        None => true,
    }
}

/// `k` lies in the half-open range from `start` to `end`.
pub open spec fn in_range(k: Seq<u8>, start: Seq<u8>, end: Option<Seq<u8>>) -> bool {
    lex_le(start, k) && below(k, end)
}

/// The prefixes that lie in the half-open range from `start` to `end`.
pub open spec fn range_keys(start: Seq<u8>, end: Option<Seq<u8>>) -> Set<Seq<u8>> {
    Set::new(|k: Seq<u8>| in_range(k, start, end))
}

/// The byte strings that begin with `p` are those from `p` up to its
/// successor.
pub proof fn lemma_successor_bounds(p: Seq<u8>, s: Seq<u8>)
    ensures
        starts_with(s, p) <==> in_range(s, p, successor_spec(p)),
    decreases p.len(),
{
    let n = p.len() as int;
    assert(p.subrange(0, n) =~= p);
    if n == 0 {
        assert(s.subrange(0, 0) =~= p);
        lemma_prefix_le(s, p);
    } else if p.last() == 0xff {
        let q = p.drop_last();
        lemma_successor_bounds(q, s);
        assert(starts_with(p, q)) by {
            assert(p.subrange(0, n - 1) =~= q);
        }
        if starts_with(s, p) {
            lemma_prefix_le(s, p);
            assert(s.subrange(0, n - 1) =~= q) by {
                assert forall|i: int| 0 <= i < n - 1 implies s[i] == q[i] by {
                    assert(s.subrange(0, n)[i] == s[i]);
                }
            }
            assert(in_range(s, p, successor_spec(p)));
        }
        if in_range(s, p, successor_spec(p)) {
            lemma_prefix_le(p, q);
            lemma_le_transitive(q, p, s);
            assert(starts_with(s, q));
            if p != s {
                let k = choose|k: int| lt_at(p, s, k);
                if k < n {
                    if k < n - 1 {
                        assert(s.subrange(0, n - 1)[k] == s[k]);
                        assert(q[k] == p[k]);
                    }
                    assert(false);
                }
                assert(starts_with(s, p));
            }
        }
    } else {
        let u = p.drop_last().push((p.last() + 1) as u8);
        assert(successor_spec(p) == Some(u));
        assert(u.len() == n);
        assert(u[n - 1] == p[n - 1] + 1);
        assert forall|i: int| 0 <= i < n - 1 implies u[i] == p[i] by {}
        if starts_with(s, p) {
            lemma_prefix_le(s, p);
            assert(s.subrange(0, n)[n - 1] == s[n - 1]);
            assert(s.subrange(0, n - 1) =~= u.subrange(0, n - 1)) by {
                assert forall|i: int| 0 <= i < n - 1 implies s[i] == u[i] by {
                    assert(s.subrange(0, n)[i] == s[i]);
                }
            }
            assert(lt_at(s, u, n - 1));
            assert(in_range(s, p, successor_spec(p)));
        }
        if in_range(s, p, successor_spec(p)) && p != s {
            let k = choose|k: int| lt_at(p, s, k);
            let j = choose|j: int| lt_at(s, u, j);
            if k < n {
                // p and s part at k, with p[k] < s[k]; s and u part at j < n.
                if j < k {
                    assert(p.subrange(0, k)[j] == p[j]);
                    assert(s.subrange(0, k)[j] == s[j]);
                    assert(u[j] == p[j]);
                } else if j > k {
                    assert(s.subrange(0, j)[k] == s[k]);
                    assert(u.subrange(0, j)[k] == u[k]);
                    if k < n - 1 {
                        assert(u[k] == p[k]);
                    }
                } else {
                    if k < n - 1 {
                        assert(u[k] == p[k]);
                    }
                }
                assert(false);
            }
            assert(starts_with(s, p));
        }
    }
}

/// Computes the least byte string greater than all that begin with `prefix`.
pub fn prefix_successor(prefix: &[u8]) -> (r: Option<Vec<u8>>)
    ensures
        match r {
            Some(u) => successor_spec(prefix@) == Some(u@),
            None => successor_spec(prefix@).is_none(),
        },
{
    let mut n: usize = prefix.len();
    proof {
        assert(prefix@.subrange(0, n as int) =~= prefix@);
    }
    while n > 0 && prefix[n - 1] == 0xff
        invariant
            n <= prefix@.len(),
            successor_spec(prefix@) == successor_spec(prefix@.subrange(0, n as int)),
        decreases n,
    {
        proof {
            assert(prefix@.subrange(0, n as int).drop_last() =~= prefix@.subrange(0, n - 1));
        }
        n -= 1;
    }
    if n == 0 {
        return None;
    }
    let mut out: Vec<u8> = Vec::new();
    let mut i: usize = 0;
    while i < n - 1
        invariant
            0 < n <= prefix@.len(),
            i <= n - 1,
            out@ == prefix@.subrange(0, i as int),
        decreases n - i,
    {
        out.push(prefix[i]);
        proof {
            assert(prefix@.subrange(0, i + 1) =~= prefix@.subrange(0, i as int).push(prefix@[i as int]));
        }
        i += 1;
    }
    out.push(prefix[n - 1] + 1);
    proof {
        assert(prefix@.subrange(0, n as int).drop_last() =~= prefix@.subrange(0, n - 1));
    }
    Some(out)
}

/// The patterns stand in strictly ascending order of their prefixes.
pub open spec fn sorted(pats: Seq<GlobPattern<Vec<u8>>>) -> bool {
    forall|i: int, j: int| 0 <= i < j < pats.len() ==> lex_lt(#[trigger] pats[i].prefix@, #[trigger] pats[j].prefix@)
}

/// Position of the pattern with prefix `k`.
pub open spec fn position(pats: Seq<GlobPattern<Vec<u8>>>, k: Seq<u8>) -> int {
    choose|i: int| 0 <= i < pats.len() && #[trigger] pats[i].prefix@ == k
}

/// The patterns as a map from prefix to wildcard mark.
pub open spec fn as_map(pats: Seq<GlobPattern<Vec<u8>>>) -> Map<Seq<u8>, bool> {
    Map::new(
        |k: Seq<u8>| exists|i: int| 0 <= i < pats.len() && #[trigger] pats[i].prefix@ == k,
        |k: Seq<u8>| pats[position(pats, k)].has_suffix,
    )
}

proof fn lemma_sorted_distinct(pats: Seq<GlobPattern<Vec<u8>>>, i: int, j: int)
    requires
        sorted(pats),
        0 <= i < pats.len(),
        0 <= j < pats.len(),
        pats[i].prefix@ == pats[j].prefix@,
    ensures
        i == j,
{
    if i < j {
        lemma_lt_asymmetric(pats[i].prefix@, pats[j].prefix@);
    } else if j < i {
        lemma_lt_asymmetric(pats[j].prefix@, pats[i].prefix@);
    }
}

proof fn lemma_as_map(pats: Seq<GlobPattern<Vec<u8>>>)
    requires
        sorted(pats),
    ensures
        forall|i: int|
            0 <= i < pats.len() ==> as_map(pats).contains_key(#[trigger] pats[i].prefix@) && as_map(
                pats,
            )[pats[i].prefix@] == pats[i].has_suffix,
        forall|k: Seq<u8>| #[trigger]
            as_map(pats).contains_key(k) ==> 0 <= position(pats, k) < pats.len() && pats[position(
                pats,
                k,
            )].prefix@ == k,
{
    assert forall|i: int| 0 <= i < pats.len() implies as_map(pats).contains_key(
        #[trigger] pats[i].prefix@,
    ) && as_map(pats)[pats[i].prefix@] == pats[i].has_suffix by {
        let k = pats[i].prefix@;
        lemma_sorted_distinct(pats, i, position(pats, k));
    }
}

/// The patterns stand in strictly ascending order of their prefixes.
pub open spec fn entries_sorted(e: Seq<GlobPattern<Seq<u8>>>) -> bool {
    forall|i: int, j: int| 0 <= i < j < e.len() ==> lex_lt(#[trigger] e[i].prefix, #[trigger] e[j].prefix)
}

/// Place of the pattern with prefix `k`.
pub open spec fn entry_place(e: Seq<GlobPattern<Seq<u8>>>, k: Seq<u8>) -> int {
    choose|i: int| 0 <= i < e.len() && #[trigger] e[i].prefix == k
}

/// The patterns as a map from prefix to wildcard mark.
pub open spec fn entries_map(e: Seq<GlobPattern<Seq<u8>>>) -> Map<Seq<u8>, bool> {
    Map::new(
        |k: Seq<u8>| exists|i: int| 0 <= i < e.len() && #[trigger] e[i].prefix == k,
        |k: Seq<u8>| e[entry_place(e, k)].has_suffix,
    )
}

proof fn lemma_entries(pats: Seq<GlobPattern<Vec<u8>>>)
    requires
        sorted(pats),
    ensures
        entries_sorted(pats.map_values(|p: GlobPattern<Vec<u8>>| p@)),
        entries_map(pats.map_values(|p: GlobPattern<Vec<u8>>| p@)) == as_map(pats),
{
    let e = pats.map_values(|p: GlobPattern<Vec<u8>>| p@);
    assert forall|i: int| 0 <= i < e.len() implies (#[trigger] e[i]).prefix == pats[i].prefix@ && e[i].has_suffix
        == pats[i].has_suffix by {}
    assert forall|i: int, j: int| 0 <= i < j < e.len() implies lex_lt(
        #[trigger] e[i].prefix,
        #[trigger] e[j].prefix,
    ) by {
        assert(lex_lt(pats[i].prefix@, pats[j].prefix@));
    }
    lemma_as_map(pats);
    assert forall|k: Seq<u8>| entries_map(e).contains_key(k) <==> as_map(pats).contains_key(k) by {
        if entries_map(e).contains_key(k) {
            let i = entry_place(e, k);
            assert(pats[i].prefix@ == k);
        }
        if as_map(pats).contains_key(k) {
            let i = position(pats, k);
            assert(e[i].prefix == k);
        }
    }
    assert forall|k: Seq<u8>| entries_map(e).contains_key(k) implies entries_map(e)[k] == as_map(pats)[k] by {
        let i = entry_place(e, k);
        assert(pats[i].prefix@ == k);
        lemma_sorted_distinct(pats, i, position(pats, k));
    }
    assert(entries_map(e) =~= as_map(pats));
}

proof fn lemma_none_disjoint()
    ensures
        disjoint(as_map(Seq::<GlobPattern<Vec<u8>>>::empty())),
        sorted(Seq::<GlobPattern<Vec<u8>>>::empty()),
{
}

/// `k` comes before `s`, or equals it where `inclusive` is set.
pub open spec fn before(k: Seq<u8>, s: Seq<u8>, inclusive: bool) -> bool {
    lex_lt(k, s) || (inclusive && k == s)
}

/// Counts by binary search the patterns whose prefix comes before `s`.
fn rank(pats: &Vec<GlobPattern<Vec<u8>>>, s: &[u8], inclusive: bool) -> (n: usize)
    requires
        sorted(pats@),
    ensures
        n <= pats@.len(),
        forall|i: int| 0 <= i < pats@.len() ==> (i < n <==> before(#[trigger] pats@[i].prefix@, s@, inclusive)),
{
    let mut lo: usize = 0;
    let mut hi: usize = pats.len();
    while lo < hi
        invariant
            lo <= hi <= pats@.len(),
            sorted(pats@),
            forall|i: int| 0 <= i < lo ==> before(#[trigger] pats@[i].prefix@, s@, inclusive),
            forall|i: int| hi <= i < pats@.len() ==> !before(#[trigger] pats@[i].prefix@, s@, inclusive),
        decreases hi - lo,
    {
        let mid = lo + (hi - lo) / 2;
        let c = compare(pats[mid].prefix.as_slice(), s);
        let is_before = match c {
            Order::Less => true,
            Order::Equal => inclusive,
            Order::Greater => false,
        };
        let ghost m = pats@[mid as int].prefix@;
        if is_before {
            proof {
                assert forall|i: int| 0 <= i < mid + 1 implies before(#[trigger] pats@[i].prefix@, s@, inclusive) by {
                    if i < mid {
                        lemma_le_transitive(pats@[i].prefix@, m, s@);
                    }
                }
            }
            lo = mid + 1;
        } else {
            proof {
                assert forall|i: int| mid <= i < pats@.len() implies !before(
                    #[trigger] pats@[i].prefix@,
                    s@,
                    inclusive,
                ) by {
                    let k = pats@[i].prefix@;
                    lemma_total(m, s@);
                    if before(k, s@, inclusive) {
                        if i > mid {
                            lemma_le_transitive(m, k, s@);
                        }
                        if lex_lt(m, s@) {
                            lemma_lt_asymmetric(m, s@);
                        }
                    }
                }
            }
            hi = mid;
        }
    }
    lo
}

/// An ordered collection of prefix patterns with distinct prefixes.
#[derive(Debug)]
pub struct GlobSet {
    patterns: Vec<GlobPattern<Vec<u8>>>,
}

impl View for GlobSet {
    type V = Map<Seq<u8>, bool>;

    /// The patterns, as a map from each prefix to whether it is a wildcard.
    closed spec fn view(&self) -> Map<Seq<u8>, bool> {
        as_map(self.patterns@)
    }
}

impl GlobSet {
    #[verifier::type_invariant]
    spec fn ordered(self) -> bool {
        sorted(self.patterns@) && disjoint(as_map(self.patterns@))
    }

    /// The patterns in ascending order of their prefixes.
    pub closed spec fn entries(&self) -> Seq<GlobPattern<Seq<u8>>> {
        self.patterns@.map_values(|p: GlobPattern<Vec<u8>>| p@)
    }

    /// The set answers yes to `s`.
    pub open spec fn matches(&self, s: Seq<u8>) -> bool {
        set_matches(self@, s)
    }

    /// The empty set.
    pub fn new() -> (r: GlobSet)
        ensures
            r@ == Map::<Seq<u8>, bool>::empty(),
            r.entries() == Seq::<GlobPattern<Seq<u8>>>::empty(),
    {
        proof {
            lemma_none_disjoint();
        }
        let r = GlobSet { patterns: Vec::new() };
        proof {
            assert(r@ =~= Map::<Seq<u8>, bool>::empty());
            assert(r.entries() =~= Seq::<GlobPattern<Seq<u8>>>::empty());
        }
        r
    }

    /// Number of patterns in the set. The patterns stand in ascending order
    /// of their prefixes, they do not intersect, and the view of the set is
    /// their map.
    pub fn len(&self) -> (n: usize)
        ensures
            n == self.entries().len(),
            entries_sorted(self.entries()),
            self@ == entries_map(self.entries()),
            disjoint(self@),
    {
        proof {
            use_type_invariant(self);
            lemma_entries(self.patterns@);
        }
        self.patterns.len()
    }

    /// Place of the predecessor of `s`: of the pattern with the greatest
    /// prefix that is not after `s`.
    fn predecessor(&self, s: &[u8]) -> (r: Option<usize>)
        ensures
            match r {
                Some(i) => i < self.patterns@.len() && is_predecessor(self@, self.patterns@[i as int].prefix@, s@),
                None => forall|k: Seq<u8>| #[trigger] self@.contains_key(k) ==> !lex_le(k, s@),
            },
    {
        proof {
            use_type_invariant(self);
            lemma_as_map(self.patterns@);
        }
        let n = rank(&self.patterns, s, true);
        if n == 0 {
            proof {
                assert forall|k: Seq<u8>| #[trigger] self@.contains_key(k) implies !lex_le(k, s@) by {
                    let i = position(self.patterns@, k);
                    assert(!before(self.patterns@[i].prefix@, s@, true));
                }
            }
            return None;
        }
        proof {
            let k = self.patterns@[n - 1].prefix@;
            assert(before(self.patterns@[n - 1].prefix@, s@, true));
            assert forall|other: Seq<u8>| #[trigger] self@.contains_key(other) && lex_le(other, s@) implies lex_le(
                other,
                k,
            ) by {
                let i = position(self.patterns@, other);
                assert(before(self.patterns@[i].prefix@, s@, true));
            }
        }
        Some(n - 1)
    }

    /// Tells whether a wildcard of the set with a shorter prefix covers
    /// everything that begins with `p`.
    fn is_shadowed(&self, p: &[u8]) -> (r: bool)
        ensures
            r == shadowed(self@, p@),
    {
        proof {
            use_type_invariant(self);
        }
        match self.predecessor(p) {
            None => {
                proof {
                    if shadowed(self@, p@) {
                        let w = choose|w: Seq<u8>| #[trigger]
                            self@.contains_key(w) && self@[w] && starts_with(p@, w) && w != p@;
                        lemma_prefix_le(p@, w);
                    }
                }
                false
            },
            Some(i) => {
                let cand = &self.patterns[i];
                proof {
                    lemma_as_map(self.patterns@);
                    lemma_shadow_is_predecessor(self@, p@, cand.prefix@);
                }
                cand.has_suffix && !same_bytes(cand.prefix.as_slice(), p) && has_prefix(p, cand.prefix.as_slice())
            },
        }
    }

    /// Tells whether the set matches `s`: the pattern with the greatest
    /// prefix that is not after `s` is looked up, and it alone is tried.
    pub fn is_match(&self, s: &[u8]) -> (r: bool)
        ensures
            r == self.matches(s@),
    {
        proof {
            use_type_invariant(self);
            lemma_as_map(self.patterns@);
        }
        match self.predecessor(s) {
            None => false,
            Some(i) => {
                let cand = &self.patterns[i];
                let r = cand.is_match(s);
                proof {
                    let k = cand.prefix@;
                    if set_matches(self@, s@) {
                        let k2 = choose|k2: Seq<u8>|
                            is_predecessor(self@, k2, s@) && pattern_matches(k2, self@[k2], s@);
                        lemma_predecessor_unique(self@, k, k2, s@);
                    }
                }
                r
            },
        }
    }

    /// Adds a pattern whose prefix the set does not hold yet.
    fn insert_new(&mut self, pattern: GlobPattern<Vec<u8>>)
        requires
            !old(self)@.contains_key(pattern.prefix@),
            disjoint(old(self)@.insert(pattern.prefix@, pattern.has_suffix)),
        ensures
            final(self)@ == old(self)@.insert(pattern.prefix@, pattern.has_suffix),
    {
        proof {
            use_type_invariant(&*self);
            lemma_as_map(self.patterns@);
        }
        let idx = rank(&self.patterns, pattern.prefix.as_slice(), false);
        let ghost before_pats = self.patterns@;
        let ghost p = pattern.prefix@;
        let ghost w = pattern.has_suffix;
        let mut pats = self.take_patterns();
        pats.insert(idx, pattern);
        proof {
            let after = pats@;
            assert forall|i: int, j: int| 0 <= i < j < after.len() implies lex_lt(
                #[trigger] after[i].prefix@,
                #[trigger] after[j].prefix@,
            ) by {
                if j == idx {
                    assert(before(before_pats[i].prefix@, p, false));
                } else if i == idx {
                    let k = before_pats[j - 1].prefix@;
                    assert(!before(k, p, false));
                    assert(before_pats[j - 1].prefix@ == k);
                    lemma_total(k, p);
                } else {
                    let a = if i < idx { i } else { i - 1 };
                    let b = if j < idx { j } else { j - 1 };
                    assert(lex_lt(before_pats[a].prefix@, before_pats[b].prefix@));
                }
            }
            lemma_as_map(after);
            let target = as_map(before_pats).insert(p, w);
            assert forall|k: Seq<u8>| as_map(after).contains_key(k) <==> target.contains_key(k) by {
                if as_map(after).contains_key(k) {
                    let i = position(after, k);
                    if i != idx {
                        let a = if i < idx { i } else { i - 1 };
                        assert(before_pats[a].prefix@ == k);
                    }
                }
                if target.contains_key(k) {
                    if k == p {
                        assert(after[idx as int].prefix@ == k);
                    } else {
                        let a = position(before_pats, k);
                        let i = if a < idx { a } else { a + 1 };
                        assert(after[i].prefix@ == k);
                    }
                }
            }
            assert forall|k: Seq<u8>| as_map(after).contains_key(k) implies as_map(after)[k] == target[k] by {
                let i = position(after, k);
                if i == idx {
                } else {
                    let a = if i < idx { i } else { i - 1 };
                    assert(before_pats[a].prefix@ == k);
                    assert(after[i] == before_pats[a]);
                }
            }
            assert(as_map(after) =~= target);
        }
        *self = GlobSet { patterns: pats };
    }

    /// Moves the patterns out and leaves the set empty.
    fn take_patterns(&mut self) -> (pats: Vec<GlobPattern<Vec<u8>>>)
        ensures
            pats == old(self).patterns,
            final(self).patterns@.len() == 0,
    {
        proof {
            lemma_none_disjoint();
        }
        let mut other = GlobSet { patterns: Vec::new() };
        core::mem::swap(self, &mut other);
        other.patterns
    }

    /// Removes the patterns whose prefix lies in the half-open range from
    /// `start` to `end` and returns them: the ordered collection is split at
    /// both bounds and its outer parts are joined again.
    #[must_use]
    pub fn take_range(&mut self, start: &[u8], end: Option<&[u8]>) -> (taken: GlobSet)
        ensures
            final(self)@ == old(self)@.remove_keys(range_keys(start@, option_view(end))),
            taken@ == old(self)@.restrict(range_keys(start@, option_view(end))),
    {
        proof {
            use_type_invariant(&*self);
            lemma_as_map(self.patterns@);
        }
        let ghost all = self.patterns@;
        let ghost keys = range_keys(start@, option_view(end));
        let lo = rank(&self.patterns, start, false);
        let mut head = self.take_patterns();
        let mut middle = head.split_off(lo);
        proof {
            assert(middle@ =~= all.subrange(lo as int, all.len() as int));
            assert forall|i: int, j: int| 0 <= i < j < middle@.len() implies lex_lt(
                #[trigger] middle@[i].prefix@,
                #[trigger] middle@[j].prefix@,
            ) by {
                assert(middle@[i] == all[i + lo] && middle@[j] == all[j + lo]);
            }
        }
        let cut = match end {
            Some(e) => rank(&middle, e, false),
            None => middle.len(),
        };
        let ghost hi = lo + cut;
        proof {
            assert forall|i: int| 0 <= i < all.len() implies ((lo <= i < hi) <==> in_range(
                #[trigger] all[i].prefix@,
                start@,
                option_view(end),
            )) by {
                let k = all[i].prefix@;
                lemma_total(start@, k);
                assert(i < lo <==> before(k, start@, false));
                if i >= lo {
                    assert(middle@[i - lo] == all[i]);
                    if end.is_some() {
                        assert(i - lo < cut <==> before(middle@[i - lo].prefix@, end.unwrap()@, false));
                    }
                }
            }
        }
        let mut tail = middle.split_off(cut);
        proof {
            assert(middle@ =~= all.subrange(lo as int, hi));
            assert(tail@ =~= all.subrange(hi, all.len() as int));
        }
        head.append(&mut tail);
        proof {
            let rest = head@;
            assert(rest =~= all.subrange(0, lo as int) + all.subrange(hi, all.len() as int));
            assert forall|i: int, j: int| 0 <= i < j < rest.len() implies lex_lt(
                #[trigger] rest[i].prefix@,
                #[trigger] rest[j].prefix@,
            ) by {
                let a = if i < lo { i } else { i + cut };
                let b = if j < lo { j } else { j + cut };
                assert(rest[i] == all[a] && rest[j] == all[b]);
            }
            assert forall|i: int, j: int| 0 <= i < j < middle@.len() implies lex_lt(
                #[trigger] middle@[i].prefix@,
                #[trigger] middle@[j].prefix@,
            ) by {
                assert(middle@[i] == all[i + lo] && middle@[j] == all[j + lo]);
            }
            lemma_as_map(rest);
            lemma_as_map(middle@);
            let kept = as_map(all).remove_keys(keys);
            assert forall|k: Seq<u8>| as_map(rest).contains_key(k) <==> kept.contains_key(k) by {
                if as_map(rest).contains_key(k) {
                    let i = position(rest, k);
                    let a = if i < lo { i } else { i + cut };
                    assert(all[a].prefix@ == k);
                }
                if kept.contains_key(k) {
                    let a = position(all, k);
                    let i = if a < lo { a } else { a - cut };
                    assert(rest[i].prefix@ == k);
                }
            }
            assert forall|k: Seq<u8>| as_map(rest).contains_key(k) implies as_map(rest)[k] == kept[k] by {
                let i = position(rest, k);
                let a = if i < lo { i } else { i + cut };
                assert(rest[i] == all[a]);
            }
            assert(as_map(rest) =~= kept);
            let gone = as_map(all).restrict(keys);
            assert forall|k: Seq<u8>| as_map(middle@).contains_key(k) <==> gone.contains_key(k) by {
                if as_map(middle@).contains_key(k) {
                    let i = position(middle@, k);
                    assert(all[i + lo].prefix@ == k);
                }
                if gone.contains_key(k) {
                    let a = position(all, k);
                    assert(middle@[a - lo].prefix@ == k);
                }
            }
            assert forall|k: Seq<u8>| as_map(middle@).contains_key(k) implies as_map(middle@)[k] == gone[k] by {
                let i = position(middle@, k);
                assert(middle@[i] == all[i + lo]);
            }
            assert(as_map(middle@) =~= gone);
            assert(disjoint(kept)) by {
                assert forall|a: Seq<u8>, b: Seq<u8>|
                    #[trigger] kept.contains_key(a) && #[trigger] kept.contains_key(b) && kept[a] && starts_with(
                        b,
                        a,
                    ) implies a == b by {
                    assert(as_map(all).contains_key(a) && as_map(all).contains_key(b));
                }
            }
            assert(disjoint(gone)) by {
                assert forall|a: Seq<u8>, b: Seq<u8>|
                    #[trigger] gone.contains_key(a) && #[trigger] gone.contains_key(b) && gone[a] && starts_with(
                        b,
                        a,
                    ) implies a == b by {
                    assert(as_map(all).contains_key(a) && as_map(all).contains_key(b));
                }
            }
        }
        *self = GlobSet { patterns: head };
        GlobSet { patterns: middle }
    }

    /// Inserts a pattern.
    ///
    /// An exact pattern is added unless the set matches it already. A
    /// wildcard that a shorter wildcard of the set covers is not added; any
    /// other wildcard takes the place of every pattern whose prefix begins
    /// with its own, and `*` alone takes the place of all.
    pub fn insert(&mut self, pattern: GlobPattern<Vec<u8>>)
        ensures
            final(self)@ == insert_spec(old(self)@, pattern@),
            forall|s: Seq<u8>| #[trigger]
                final(self).matches(s) == (old(self).matches(s) || pattern@.matches(s)),
    {
        proof {
            use_type_invariant(&*self);
            lemma_as_map(self.patterns@);
            lemma_insert_disjoint(self@, pattern@);
            assert forall|s: Seq<u8>| #[trigger]
                set_matches(insert_spec(self@, pattern@), s) == (set_matches(self@, s) || pattern@.matches(s)) by {
                lemma_insert_matches(self@, pattern@, s);
            }
        }
        if !pattern.has_suffix {
            if !self.is_match(pattern.prefix.as_slice()) {
                proof {
                    if self@.contains_key(pattern.prefix@) {
                        lemma_key_is_matched(self@, pattern.prefix@);
                    }
                }
                self.insert_new(pattern);
            }
        } else if pattern.prefix.len() == 0 {
            let ghost before_map = self@;
            let mut pats: Vec<GlobPattern<Vec<u8>>> = Vec::new();
            pats.push(pattern);
            proof {
                let after = pats@;
                lemma_as_map(after);
                assert(pattern.prefix@ =~= Seq::<u8>::empty());
                assert(as_map(after) =~= universal()) by {
                    assert(after[0].prefix@ == Seq::<u8>::empty());
                    assert forall|k: Seq<u8>| as_map(after).contains_key(k) implies k == Seq::<u8>::empty() by {
                        let i = position(after, k);
                    }
                }
                lemma_universal_absorbs(before_map, Seq::empty());
            }
            *self = GlobSet { patterns: pats };
        } else if self.is_shadowed(pattern.prefix.as_slice()) {
            // Everything that the pattern matches is matched already.
        } else {
            let ghost before_map = self@;
            let ghost all = self.patterns@;
            let ghost p = pattern.prefix@;
            let next = prefix_successor(pattern.prefix.as_slice());
            let lo = rank(&self.patterns, pattern.prefix.as_slice(), false);
            let hi = match &next {
                Some(u) => rank(&self.patterns, u.as_slice(), false),
                None => self.patterns.len(),
            };
            proof {
                assert(starts_with(p, p)) by {
                    assert(p.subrange(0, p.len() as int) =~= p);
                }
                assert forall|k: Seq<u8>| range_keys(p, successor_spec(p)).contains(k) == subsumed(p).contains(k) by {
                    lemma_successor_bounds(p, k);
                }
                assert(range_keys(p, successor_spec(p)) =~= subsumed(p));
                // The patterns that the wildcard covers stand from `lo` up to `hi`.
                assert forall|i: int| 0 <= i < all.len() implies ((lo <= i < hi) <==> starts_with(
                    #[trigger] all[i].prefix@,
                    p,
                )) by {
                    let k = all[i].prefix@;
                    lemma_successor_bounds(p, k);
                    lemma_total(p, k);
                    assert(i < lo <==> before(k, p, false));
                    if next.is_some() {
                        assert(i < hi <==> before(k, next.unwrap()@, false));
                    }
                }
            }
            if lo >= hi {
                // Nothing to replace.
                proof {
                    assert(before_map.remove_keys(subsumed(p)) =~= before_map) by {
                        assert forall|k: Seq<u8>| before_map.contains_key(k) implies !subsumed(p).contains(k) by {
                            let i = position(all, k);
                            assert(all[i].prefix@ == k);
                        }
                    }
                    assert(before_map.insert(p, true) =~= before_map.remove_keys(subsumed(p)).insert(p, true));
                }
                self.insert_new(pattern);
            } else if hi - lo == 1 && self.patterns[lo].has_suffix && same_bytes(
                self.patterns[lo].prefix.as_slice(),
                pattern.prefix.as_slice(),
            ) {
                // The very same wildcard, and nothing else under it.
                proof {
                    assert(before_map.remove_keys(subsumed(p)).insert(p, true) =~= before_map) by {
                        assert(all[lo as int].prefix@ == p);
                        assert forall|k: Seq<u8>| before_map.contains_key(k) && subsumed(p).contains(k) implies k
                            == p by {
                            let i = position(all, k);
                            assert(all[i].prefix@ == k);
                        }
                    }
                }
            } else {
                let taken = match &next {
                    Some(u) => self.take_range(pattern.prefix.as_slice(), Some(u.as_slice())),
                    None => self.take_range(pattern.prefix.as_slice(), None),
                };
                self.insert_new(pattern);
            }
        }
    }

    /// The patterns of the set in ascending order of their prefixes.
    pub fn patterns(&self) -> (r: &Vec<GlobPattern<Vec<u8>>>)
        ensures
            r@.map_values(|p: GlobPattern<Vec<u8>>| p@) == self.entries(),
            sorted(r@),
            as_map(r@) == self@,
            disjoint(self@),
    {
        proof {
            use_type_invariant(self);
        }
        &self.patterns
    }

    /// Inserts a pattern whose prefix is borrowed; the set keeps a copy.
    pub fn insert_ref(&mut self, pattern: GlobPattern<&[u8]>)
        ensures
            final(self)@ == insert_spec(old(self)@, pattern@),
            forall|s: Seq<u8>| #[trigger]
                final(self).matches(s) == (old(self).matches(s) || pattern@.matches(s)),
    {
        let owned = PrefixInterface(pattern).into_owned();
        self.insert(owned.0);
    }

    /// The set built from the empty one by inserting `patterns` in order.
    pub fn from_iter(patterns: Vec<GlobPattern<Vec<u8>>>) -> (r: GlobSet)
        ensures
            r@ == build(patterns@.map_values(|p: GlobPattern<Vec<u8>>| p@)),
            forall|s: Seq<u8>| #[trigger]
                r.matches(s) == naive_match(patterns@.map_values(|p: GlobPattern<Vec<u8>>| p@), s),
    {
        let ghost all = patterns@.map_values(|p: GlobPattern<Vec<u8>>| p@);
        let total = patterns.len();
        let mut out = GlobSet::new();
        let mut patterns = patterns;
        let mut rest: Vec<GlobPattern<Vec<u8>>> = Vec::new();
        // Reverse once, so that patterns can be moved out from the back in order.
        while patterns.len() > 0
            invariant
                rest@.len() + patterns@.len() == all.len(),
                all.len() <= usize::MAX,
                forall|i: int| 0 <= i < patterns@.len() ==> (#[trigger] patterns@[i])@ == all[i],
                forall|i: int| 0 <= i < rest@.len() ==> (#[trigger] rest@[i])@ == all[all.len() - 1 - i],
            decreases patterns@.len(),
        {
            let p = patterns.pop().unwrap();
            rest.push(p);
        }
        let mut done: usize = 0;
        while rest.len() > 0
            invariant
                done + rest@.len() == all.len(),
                all.len() <= usize::MAX,
                forall|i: int| 0 <= i < rest@.len() ==> (#[trigger] rest@[i])@ == all[all.len() - 1 - i],
                out@ == build(all.subrange(0, done as int)),
            decreases rest@.len(),
        {
            let p = rest.pop().unwrap();
            proof {
                assert(all.subrange(0, done + 1).drop_last() =~= all.subrange(0, done as int));
                assert(all.subrange(0, done + 1).last() == all[done as int]);
            }
            out.insert(p);
            done += 1;
        }
        proof {
            assert(all.subrange(0, done as int) =~= all);
            assert forall|s: Seq<u8>| #[trigger] set_matches(build(all), s) == naive_match(all, s) by {
                lemma_predecessor_search_is_scan(all, s);
            }
        }
        out
    }
}

impl PartialEq for GlobSet {
    /// Two sets are equal when they hold the same patterns.
    fn eq(&self, other: &Self) -> (r: bool) {
        let n = self.patterns.len();
        if n != other.patterns.len() {
            proof {
                assert(self.entries().len() != other.entries().len());
            }
            return false;
        }
        let mut i: usize = 0;
        while i < n
            invariant
                i <= n,
                n == self.patterns@.len(),
                n == other.patterns@.len(),
                forall|j: int| 0 <= j < i ==> (#[trigger] self.patterns@[j])@ == other.patterns@[j]@,
            decreases n - i,
        {
            let a = &self.patterns[i];
            let b = &other.patterns[i];
            if a.has_suffix != b.has_suffix || !same_bytes(a.prefix.as_slice(), b.prefix.as_slice()) {
                proof {
                    assert(self.entries()[i as int] == self.patterns@[i as int]@);
                    assert(other.entries()[i as int] == other.patterns@[i as int]@);
                }
                return false;
            }
            i += 1;
        }
        proof {
            assert(self.entries() =~= other.entries());
        }
        true
    }
}

impl PartialEqSpecImpl for GlobSet {
    open spec fn obeys_eq_spec() -> bool {
        true
    }

    open spec fn eq_spec(&self, other: &Self) -> bool {
        self.entries() == other.entries()
    }
}

/// The byte string behind an optional slice.
pub open spec fn option_view(end: Option<&[u8]>) -> Option<Seq<u8>> {
    match end {
        Some(e) => Some(e@),
        None => None,
    }
}

} // verus!
