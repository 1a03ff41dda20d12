//! The mathematical model of a pattern set: a map from each prefix to whether
//! it stands for a wildcard, queried by a predecessor search.

use vstd::prelude::*;
use crate::glob_pattern::GlobPattern;
use crate::glob_pattern::pattern_matches;
use crate::lexicographic::lemma_le_transitive;
use crate::lexicographic::lemma_lt_asymmetric;
use crate::lexicographic::lemma_prefix_block;
use crate::lexicographic::lemma_prefix_le;
use crate::lexicographic::lemma_total;
use crate::lexicographic::lex_le;
use crate::lexicographic::starts_with;

verus! {

/// `k` is the greatest prefix of the set that is not after `s`.
pub open spec fn is_predecessor(m: Map<Seq<u8>, bool>, k: Seq<u8>, s: Seq<u8>) -> bool {
    &&& m.contains_key(k)
    &&& lex_le(k, s)
    &&& forall|other: Seq<u8>| #[trigger] m.contains_key(other) && lex_le(other, s) ==> lex_le(other, k)
}

/// The answer of the set to `s`: the predecessor of `s` exists and matches it.
pub open spec fn set_matches(m: Map<Seq<u8>, bool>, s: Seq<u8>) -> bool {
    exists|k: Seq<u8>| is_predecessor(m, k, s) && pattern_matches(k, m[k], s)
}

/// Some pattern of the set matches `s`.
pub open spec fn covers(m: Map<Seq<u8>, bool>, s: Seq<u8>) -> bool {
    exists|k: Seq<u8>| #[trigger] m.contains_key(k) && pattern_matches(k, m[k], s)
}

/// No two patterns of the set match a common string.
pub open spec fn disjoint(m: Map<Seq<u8>, bool>) -> bool {
    forall|a: Seq<u8>, b: Seq<u8>|
        #[trigger] m.contains_key(a) && #[trigger] m.contains_key(b) && m[a] && starts_with(b, a)
            ==> a == b
}

/// A wildcard of the set with a shorter prefix already matches everything
/// that begins with `p`.
pub open spec fn shadowed(m: Map<Seq<u8>, bool>, p: Seq<u8>) -> bool {
    exists|k: Seq<u8>| #[trigger] m.contains_key(k) && m[k] && starts_with(p, k) && k != p
}

/// The prefixes that a wildcard with prefix `p` makes redundant.
pub open spec fn subsumed(p: Seq<u8>) -> Set<Seq<u8>> {
    Set::new(|k: Seq<u8>| starts_with(k, p))
}

/// The set that holds the universal wildcard `*` and nothing else.
pub open spec fn universal() -> Map<Seq<u8>, bool> {
    Map::empty().insert(Seq::empty(), true)
}

/// The set after `pat` is inserted. A wildcard that a shorter wildcard of
/// the set covers changes nothing; any other wildcard takes the place of
/// every pattern whose prefix begins with its own. An exact pattern is added
/// unless the set matches it already.
pub open spec fn insert_spec(m: Map<Seq<u8>, bool>, pat: GlobPattern<Seq<u8>>) -> Map<Seq<u8>, bool> {
    if pat.has_suffix {
        if shadowed(m, pat.prefix) {
            m
        } else {
            m.remove_keys(subsumed(pat.prefix)).insert(pat.prefix, true)
        }
    } else if set_matches(m, pat.prefix) {
        m
    } else {
        m.insert(pat.prefix, false)
    }
}

/// The set built from the empty one by inserting `pats` in order.
pub open spec fn build(pats: Seq<GlobPattern<Seq<u8>>>) -> Map<Seq<u8>, bool>
    decreases pats.len(),
{
    if pats.len() == 0 {
        Map::empty()
    } else {
        insert_spec(build(pats.drop_last()), pats.last())
    }
}

/// Some pattern of the list matches `s`.
pub open spec fn naive_match(pats: Seq<GlobPattern<Seq<u8>>>, s: Seq<u8>) -> bool {
    exists|i: int| 0 <= i < pats.len() && (#[trigger] pats[i]).matches(s)
}

/// A string has at most one predecessor in a set.
pub proof fn lemma_predecessor_unique(m: Map<Seq<u8>, bool>, a: Seq<u8>, b: Seq<u8>, s: Seq<u8>)
    requires
        is_predecessor(m, a, s),
        is_predecessor(m, b, s),
    ensures
        a == b,
{
    assert(lex_le(a, b));
    assert(lex_le(b, a));
    if a != b {
        lemma_lt_asymmetric(a, b);
    }
}

/// A prefix of the set is matched by the set.
pub proof fn lemma_key_is_matched(m: Map<Seq<u8>, bool>, k: Seq<u8>)
    requires
        m.contains_key(k),
    ensures
        set_matches(m, k),
{
    assert(starts_with(k, k)) by {
        assert(k.subrange(0, k.len() as int) =~= k);
    }
    assert(is_predecessor(m, k, k));
}

proof fn lemma_starts_with_transitive(s: Seq<u8>, k: Seq<u8>, p: Seq<u8>)
    requires
        starts_with(s, k),
        starts_with(k, p),
    ensures
        starts_with(s, p),
{
    let n = p.len() as int;
    assert forall|i: int| 0 <= i < n implies s.subrange(0, n)[i] == p[i] by {
        assert(k.subrange(0, n)[i] == k[i]);
        assert(s.subrange(0, k.len() as int)[i] == s[i]);
    }
    assert(s.subrange(0, n) =~= p);
}

/// The set never answers yes without a pattern that matches.
pub proof fn lemma_match_is_covered(m: Map<Seq<u8>, bool>, s: Seq<u8>)
    requires
        set_matches(m, s),
    ensures
        covers(m, s),
{
    let k = choose|k: Seq<u8>| is_predecessor(m, k, s) && pattern_matches(k, m[k], s);
    assert(m.contains_key(k) && pattern_matches(k, m[k], s));
}

/// In a set of patterns that do not intersect, the predecessor search finds
/// every match.
pub proof fn lemma_disjoint_match(m: Map<Seq<u8>, bool>, s: Seq<u8>)
    requires
        disjoint(m),
    ensures
        set_matches(m, s) == covers(m, s),
{
    if set_matches(m, s) {
        lemma_match_is_covered(m, s);
    }
    if covers(m, s) {
        let k = choose|k: Seq<u8>| #[trigger] m.contains_key(k) && pattern_matches(k, m[k], s);
        if m[k] {
            lemma_prefix_le(s, k);
        }
        assert forall|other: Seq<u8>| #[trigger] m.contains_key(other) && lex_le(other, s) implies lex_le(
            other,
            k,
        ) by {
            lemma_total(other, k);
            if !lex_le(other, k) {
                // k < other <= s
                if m[k] {
                    lemma_prefix_block(k, other, s);
                    assert(other == k);
                } else {
                    lemma_le_transitive(k, other, s);
                    lemma_lt_asymmetric(k, s);
                }
            }
        }
        assert(is_predecessor(m, k, s));
    }
}

/// In a set of patterns that do not intersect, a shorter wildcard covers
/// `p` exactly if the predecessor of `p` is such a wildcard.
pub proof fn lemma_shadow_is_predecessor(m: Map<Seq<u8>, bool>, p: Seq<u8>, k: Seq<u8>)
    requires
        disjoint(m),
        is_predecessor(m, k, p),
    ensures
        shadowed(m, p) == (m[k] && k != p && starts_with(p, k)),
{
    if shadowed(m, p) {
        let w = choose|w: Seq<u8>| #[trigger] m.contains_key(w) && m[w] && starts_with(p, w) && w != p;
        lemma_prefix_le(p, w);
        assert(lex_le(w, k));
        lemma_prefix_block(w, k, p);
        assert(w == k);
    }
    if m[k] && k != p && starts_with(p, k) {
        assert(m.contains_key(k) && m[k] && starts_with(p, k) && k != p);
    }
}

/// Inserting a pattern adds the strings that it matches to those that some
/// pattern of the set matches, and takes none away.
pub proof fn lemma_insert_covers(m: Map<Seq<u8>, bool>, pat: GlobPattern<Seq<u8>>, s: Seq<u8>)
    ensures
        covers(insert_spec(m, pat), s) == (covers(m, s) || pat.matches(s)),
{
    let p = pat.prefix;
    let after = insert_spec(m, pat);
    assert(starts_with(p, p)) by {
        assert(p.subrange(0, p.len() as int) =~= p);
    }
    if pat.has_suffix {
        if shadowed(m, p) {
            if pat.matches(s) {
                let w = choose|w: Seq<u8>| #[trigger] m.contains_key(w) && m[w] && starts_with(p, w) && w != p;
                lemma_starts_with_transitive(s, p, w);
                assert(m.contains_key(w) && pattern_matches(w, m[w], s));
            }
        } else {
            assert(after.contains_key(p) && after[p]);
            if covers(m, s) {
                let k = choose|k: Seq<u8>| #[trigger] m.contains_key(k) && pattern_matches(k, m[k], s);
                if starts_with(k, p) {
                    if m[k] {
                        lemma_starts_with_transitive(s, k, p);
                    }
                    assert(after.contains_key(p) && pattern_matches(p, after[p], s));
                } else {
                    assert(after.contains_key(k) && pattern_matches(k, after[k], s));
                }
            }
            if pat.matches(s) {
                assert(after.contains_key(p) && pattern_matches(p, after[p], s));
            }
            if covers(after, s) {
                let k = choose|k: Seq<u8>| #[trigger] after.contains_key(k) && pattern_matches(k, after[k], s);
                if k != p {
                    assert(m.contains_key(k) && pattern_matches(k, m[k], s));
                }
            }
        }
    } else if set_matches(m, p) {
        lemma_match_is_covered(m, p);
    } else {
        if m.contains_key(p) {
            lemma_key_is_matched(m, p);
        }
        if covers(m, s) {
            let k = choose|k: Seq<u8>| #[trigger] m.contains_key(k) && pattern_matches(k, m[k], s);
            assert(after.contains_key(k) && pattern_matches(k, after[k], s));
        }
        if pat.matches(s) {
            assert(after.contains_key(p) && pattern_matches(p, after[p], s));
        }
        if covers(after, s) {
            let k = choose|k: Seq<u8>| #[trigger] after.contains_key(k) && pattern_matches(k, after[k], s);
            if k != p {
                assert(m.contains_key(k) && pattern_matches(k, m[k], s));
            }
        }
    }
}

/// Inserting a pattern keeps the patterns of the set from intersecting.
pub proof fn lemma_insert_disjoint(m: Map<Seq<u8>, bool>, pat: GlobPattern<Seq<u8>>)
    requires
        disjoint(m),
    ensures
        disjoint(insert_spec(m, pat)),
{
    let p = pat.prefix;
    let after = insert_spec(m, pat);
    if pat.has_suffix && shadowed(m, p) {
    } else if !pat.has_suffix && set_matches(m, p) {
    } else {
        assert forall|a: Seq<u8>, b: Seq<u8>|
            #[trigger] after.contains_key(a) && #[trigger] after.contains_key(b) && after[a]
                && starts_with(b, a) implies a == b by {
            if pat.has_suffix {
                if a == p {
                } else if b == p {
                    assert(m.contains_key(a) && m[a] && starts_with(p, a) && a != p);
                } else {
                    assert(m.contains_key(a) && m.contains_key(b));
                }
            } else {
                if b == p && a != p {
                    assert(m.contains_key(a) && pattern_matches(a, m[a], p));
                    lemma_disjoint_match(m, p);
                } else {
                    assert(m.contains_key(a) && (a == p || m.contains_key(b)));
                }
            }
        }
    }
}

/// After a pattern is inserted into a set of patterns that do not
/// intersect, the set matches what it matched before and what the pattern
/// matches, and nothing else.
pub proof fn lemma_insert_matches(m: Map<Seq<u8>, bool>, pat: GlobPattern<Seq<u8>>, s: Seq<u8>)
    requires
        disjoint(m),
    ensures
        set_matches(insert_spec(m, pat), s) == (set_matches(m, s) || pat.matches(s)),
{
    lemma_insert_disjoint(m, pat);
    lemma_disjoint_match(m, s);
    lemma_disjoint_match(insert_spec(m, pat), s);
    lemma_insert_covers(m, pat, s);
}

/// A set built by insertion covers exactly the strings that one of the
/// inserted patterns matches.
pub proof fn lemma_build_covers(pats: Seq<GlobPattern<Seq<u8>>>, s: Seq<u8>)
    ensures
        covers(build(pats), s) == naive_match(pats, s),
    decreases pats.len(),
{
    if pats.len() > 0 {
        let before = pats.drop_last();
        let n = pats.len() - 1;
        lemma_build_covers(before, s);
        lemma_insert_covers(build(before), pats.last(), s);
        if naive_match(before, s) {
            let i = choose|i: int| 0 <= i < before.len() && (#[trigger] before[i]).matches(s);
            assert(pats[i] == before[i]);
        }
        if pats.last().matches(s) {
            assert(pats[n].matches(s));
        }
        if naive_match(pats, s) {
            let i = choose|i: int| 0 <= i < pats.len() && (#[trigger] pats[i]).matches(s);
            if i < n {
                assert(before[i] == pats[i]);
            }
        }
    }
}

/// The patterns of a set built by insertion do not intersect.
pub proof fn lemma_build_disjoint(pats: Seq<GlobPattern<Seq<u8>>>)
    ensures
        disjoint(build(pats)),
    decreases pats.len(),
{
    if pats.len() > 0 {
        lemma_build_disjoint(pats.drop_last());
        lemma_insert_disjoint(build(pats.drop_last()), pats.last());
    }
}

/// The predecessor search on a set built by insertion answers as a scan of
/// all the inserted patterns would.
pub proof fn lemma_predecessor_search_is_scan(pats: Seq<GlobPattern<Seq<u8>>>, s: Seq<u8>)
    ensures
        set_matches(build(pats), s) == naive_match(pats, s),
{
    lemma_build_disjoint(pats);
    lemma_disjoint_match(build(pats), s);
    lemma_build_covers(pats, s);
}

/// Inserting a pattern a second time changes nothing.
pub proof fn lemma_insert_idempotent(m: Map<Seq<u8>, bool>, pat: GlobPattern<Seq<u8>>)
    ensures
        insert_spec(insert_spec(m, pat), pat) == insert_spec(m, pat),
        forall|s: Seq<u8>|
            set_matches(insert_spec(insert_spec(m, pat), pat), s) == set_matches(
                insert_spec(m, pat),
                s,
            ),
{
    let p = pat.prefix;
    let once = insert_spec(m, pat);
    let twice = insert_spec(once, pat);
    if pat.has_suffix {
        if !shadowed(m, p) {
            if shadowed(once, p) {
                let w = choose|w: Seq<u8>| #[trigger] once.contains_key(w) && once[w] && starts_with(p, w) && w != p;
                assert(m.contains_key(w) && m[w] && starts_with(p, w) && w != p);
            }
            assert(twice =~= once);
        }
    } else if !set_matches(m, p) {
        lemma_key_is_matched(once, p);
    }
}

/// After a wildcard is inserted, the set matches everything that begins
/// with its prefix, and holds no pattern of its own for any such string but
/// the wildcard itself.
pub proof fn lemma_wildcard_subsumes(m: Map<Seq<u8>, bool>, p: Seq<u8>, k: Seq<u8>)
    requires
        disjoint(m),
        starts_with(k, p),
    ensures
        set_matches(insert_spec(m, GlobPattern { has_suffix: true, prefix: p }), k),
        insert_spec(m, GlobPattern { has_suffix: true, prefix: p }).contains_key(k) ==> k == p
            && insert_spec(m, GlobPattern { has_suffix: true, prefix: p })[k],
{
    let pat = GlobPattern { has_suffix: true, prefix: p };
    let after = insert_spec(m, pat);
    lemma_insert_matches(m, pat, k);
    if shadowed(m, p) && m.contains_key(k) {
        let w = choose|w: Seq<u8>| #[trigger] m.contains_key(w) && m[w] && starts_with(p, w) && w != p;
        lemma_starts_with_transitive(k, p, w);
        assert(w == k);
        assert(p =~= k) by {
            assert(k.subrange(0, p.len() as int) =~= k);
        }
    }
}

/// Inserting `*` leaves the universal wildcard alone in the set, and the set
/// then matches every string.
pub proof fn lemma_universal_absorbs(m: Map<Seq<u8>, bool>, s: Seq<u8>)
    ensures
        insert_spec(m, GlobPattern { has_suffix: true, prefix: Seq::empty() }) == universal(),
        set_matches(universal(), s),
{
    let star = GlobPattern { has_suffix: true, prefix: Seq::<u8>::empty() };
    let after = insert_spec(m, star);
    if shadowed(m, star.prefix) {
        let w = choose|w: Seq<u8>| #[trigger]
            m.contains_key(w) && m[w] && starts_with(star.prefix, w) && w != star.prefix;
        assert(w =~= star.prefix);
    }
    assert forall|k: Seq<u8>| starts_with(k, star.prefix) by {
        assert(k.subrange(0, 0) =~= star.prefix);
    }
    assert(after =~= universal());
    let e = Seq::<u8>::empty();
    lemma_prefix_le(s, e);
    assert forall|other: Seq<u8>| #[trigger] universal().contains_key(other) && lex_le(other, s) implies lex_le(
        other,
        e,
    ) by {}
    assert(is_predecessor(universal(), e, s));
    assert(pattern_matches(e, universal()[e], s));
}

/// Once the set is universal, no insertion changes it.
pub proof fn lemma_universal_stays(pat: GlobPattern<Seq<u8>>)
    ensures
        insert_spec(universal(), pat) == universal(),
{
    let e = Seq::<u8>::empty();
    if pat.has_suffix {
        if pat.prefix.len() == 0 {
            assert(pat.prefix =~= e);
            lemma_universal_absorbs(universal(), e);
        } else {
            assert(starts_with(pat.prefix, e)) by {
                assert(pat.prefix.subrange(0, 0) =~= e);
            }
            assert(universal().contains_key(e) && universal()[e] && starts_with(pat.prefix, e) && e != pat.prefix);
        }
    } else {
        lemma_universal_absorbs(universal(), pat.prefix);
    }
}

/// The set `acc` after `pats` are inserted in order.
pub open spec fn insert_all(acc: Map<Seq<u8>, bool>, pats: Seq<GlobPattern<Seq<u8>>>) -> Map<Seq<u8>, bool>
    decreases pats.len(),
{
    if pats.len() == 0 {
        acc
    } else {
        insert_all(insert_spec(acc, pats[0]), pats.drop_first())
    }
}

/// After `*` is inserted the set matches every string, whatever is inserted
/// later.
pub proof fn lemma_universal_forever(m: Map<Seq<u8>, bool>, later: Seq<GlobPattern<Seq<u8>>>, s: Seq<u8>)
    ensures
        insert_all(insert_spec(m, GlobPattern { has_suffix: true, prefix: Seq::empty() }), later) == universal(),
        set_matches(
            insert_all(insert_spec(m, GlobPattern { has_suffix: true, prefix: Seq::empty() }), later),
            s,
        ),
{
    lemma_universal_absorbs(m, s);
    lemma_universal_kept(later);
}

proof fn lemma_universal_kept(later: Seq<GlobPattern<Seq<u8>>>)
    ensures
        insert_all(universal(), later) == universal(),
    decreases later.len(),
{
    if later.len() > 0 {
        lemma_universal_stays(later[0]);
        lemma_universal_kept(later.drop_first());
    }
}

proof fn lemma_insert_all_last(acc: Map<Seq<u8>, bool>, pats: Seq<GlobPattern<Seq<u8>>>)
    requires
        pats.len() > 0,
    ensures
        insert_all(acc, pats) == insert_spec(insert_all(acc, pats.drop_last()), pats.last()),
    decreases pats.len(),
{
    let next = insert_spec(acc, pats[0]);
    assert(insert_all(acc, pats) == insert_all(next, pats.drop_first()));
    if pats.len() == 1 {
        assert(insert_all(next, pats.drop_first()) == next);
        assert(insert_all(acc, pats.drop_last()) == acc);
        assert(pats.last() == pats[0]);
    } else {
        let front = pats.drop_last();
        lemma_insert_all_last(next, pats.drop_first());
        assert(pats.drop_first().drop_last() =~= front.drop_first());
        assert(pats.drop_first().last() == pats.last());
        assert(front[0] == pats[0]);
        assert(insert_all(acc, front) == insert_all(insert_spec(acc, front[0]), front.drop_first()));
    }
}

/// Inserting patterns one after another into the empty set builds the set
/// of the list.
pub proof fn lemma_insert_all_builds(pats: Seq<GlobPattern<Seq<u8>>>)
    ensures
        insert_all(Map::empty(), pats) == build(pats),
    decreases pats.len(),
{
    if pats.len() > 0 {
        lemma_insert_all_last(Map::empty(), pats);
        lemma_insert_all_builds(pats.drop_last());
    }
}

} // verus!
