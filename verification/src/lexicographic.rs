//! Lexicographic order on byte strings, and its relation to prefixes.

use vstd::prelude::*;

verus! {

/// `a` and `b` agree on their first `k` bytes, and `a` is smaller at position
/// `k`: either `a` ends there and `b` goes on, or `a` holds the smaller byte.
pub open spec fn lt_at(a: Seq<u8>, b: Seq<u8>, k: int) -> bool {
    &&& 0 <= k <= a.len()
    &&& k <= b.len()
    &&& a.subrange(0, k) == b.subrange(0, k)
    &&& if k == a.len() {
        k < b.len()
    } else {
        k < b.len() && a[k] < b[k]
    }
}

/// Strict lexicographic order: `a` comes before `b`.
pub open spec fn lex_lt(a: Seq<u8>, b: Seq<u8>) -> bool {
    exists|k: int| lt_at(a, b, k)
}

/// Lexicographic order: `a` comes before `b` or equals it.
pub open spec fn lex_le(a: Seq<u8>, b: Seq<u8>) -> bool {
    a == b || lex_lt(a, b)
}

/// `s` begins with `p`.
pub open spec fn starts_with(s: Seq<u8>, p: Seq<u8>) -> bool {
    p.len() <= s.len() && s.subrange(0, p.len() as int) == p
}

/// Result of comparing two byte strings.
#[derive(Clone, Copy, PartialEq, Eq, Debug, Structural)]
pub enum Order {
    Less,
    Equal,
    Greater,
}

/// The order of `a` relative to `b`.
pub open spec fn order_of(a: Seq<u8>, b: Seq<u8>) -> Order {
    if a == b {
        Order::Equal
    } else if lex_lt(a, b) {
        Order::Less
    } else {
        Order::Greater
    }
}

proof fn lemma_subrange_index(a: Seq<u8>, b: Seq<u8>, k: int, j: int)
    requires
        0 <= j < k <= a.len(),
        k <= b.len(),
        a.subrange(0, k) == b.subrange(0, k),
    ensures
        a[j] == b[j],
{
    assert(a.subrange(0, k)[j] == a[j]);
    assert(b.subrange(0, k)[j] == b[j]);
}

proof fn lemma_subrange_shrink(a: Seq<u8>, b: Seq<u8>, k: int, j: int)
    requires
        0 <= j <= k <= a.len(),
        k <= b.len(),
        a.subrange(0, k) == b.subrange(0, k),
    ensures
        a.subrange(0, j) == b.subrange(0, j),
{
    assert forall|i: int| 0 <= i < j implies a.subrange(0, j)[i] == b.subrange(0, j)[i] by {
        lemma_subrange_index(a, b, k, i);
    }
    assert(a.subrange(0, j) =~= b.subrange(0, j));
}

/// No byte string comes before itself.
pub proof fn lemma_lt_irreflexive(a: Seq<u8>)
    ensures
        !lex_lt(a, a),
{
}

/// Of two byte strings at most one comes before the other.
pub proof fn lemma_lt_asymmetric(a: Seq<u8>, b: Seq<u8>)
    requires
        lex_lt(a, b),
    ensures
        !lex_lt(b, a),
        a != b,
{
    let k = choose|k: int| lt_at(a, b, k);
    if lex_lt(b, a) {
        let j = choose|j: int| lt_at(b, a, j);
        if k < j {
            lemma_subrange_index(b, a, j, k);
        } else if j < k {
            lemma_subrange_index(a, b, k, j);
        }
    }
}

proof fn lemma_total_from(a: Seq<u8>, b: Seq<u8>, i: int)
    requires
        0 <= i <= a.len(),
        i <= b.len(),
        a.subrange(0, i) == b.subrange(0, i),
    ensures
        lex_lt(a, b) || a == b || lex_lt(b, a),
    decreases a.len() - i,
{
    if i == a.len() {
        if i == b.len() {
            assert(a.subrange(0, i) =~= a);
            assert(b.subrange(0, i) =~= b);
        } else {
            assert(lt_at(a, b, i));
        }
    } else if i == b.len() {
        assert(lt_at(b, a, i));
    } else if a[i] < b[i] {
        assert(lt_at(a, b, i));
    } else if b[i] < a[i] {
        assert(lt_at(b, a, i));
    } else {
        assert(a.subrange(0, i + 1) =~= a.subrange(0, i).push(a[i]));
        assert(b.subrange(0, i + 1) =~= b.subrange(0, i).push(b[i]));
        lemma_total_from(a, b, i + 1);
    }
}

/// Any two byte strings are comparable.
pub proof fn lemma_total(a: Seq<u8>, b: Seq<u8>)
    ensures
        lex_lt(a, b) || a == b || lex_lt(b, a),
        lex_le(a, b) || lex_lt(b, a),
        lex_le(a, b) <==> !lex_lt(b, a),
{
    assert(a.subrange(0, 0) =~= b.subrange(0, 0));
    lemma_total_from(a, b, 0);
    if lex_lt(a, b) {
        lemma_lt_asymmetric(a, b);
    }
    if lex_lt(b, a) {
        lemma_lt_asymmetric(b, a);
    }
}

/// The strict order is transitive.
pub proof fn lemma_lt_transitive(a: Seq<u8>, b: Seq<u8>, c: Seq<u8>)
    requires
        lex_lt(a, b),
        lex_lt(b, c),
    ensures
        lex_lt(a, c),
{
    let k = choose|k: int| lt_at(a, b, k);
    let j = choose|j: int| lt_at(b, c, j);
    if k <= j {
        lemma_subrange_shrink(b, c, j, k);
        if k < j {
            lemma_subrange_index(b, c, j, k);
        }
        assert(lt_at(a, c, k));
    } else {
        lemma_subrange_shrink(a, b, k, j);
        lemma_subrange_index(a, b, k, j);
        assert(lt_at(a, c, j));
    }
}

/// The order is transitive, strictly so when one of the two steps is strict.
pub proof fn lemma_le_transitive(a: Seq<u8>, b: Seq<u8>, c: Seq<u8>)
    requires
        lex_le(a, b),
        lex_le(b, c),
    ensures
        lex_le(a, c),
        lex_lt(a, b) || lex_lt(b, c) ==> lex_lt(a, c),
{
    if lex_lt(a, b) && lex_lt(b, c) {
        lemma_lt_transitive(a, b, c);
    }
}

/// A byte string is not before any of its prefixes.
pub proof fn lemma_prefix_le(s: Seq<u8>, p: Seq<u8>)
    requires
        starts_with(s, p),
    ensures
        lex_le(p, s),
{
    if p != s {
        let k = p.len() as int;
        assert(p.subrange(0, k) =~= p);
        if k == s.len() {
            assert(s.subrange(0, k) =~= s);
        }
        assert(lt_at(p, s, k));
    }
}

/// The byte strings that begin with `p` lie together in the order: whatever
/// stands between `p` and one of them begins with `p` too.
pub proof fn lemma_prefix_block(p: Seq<u8>, x: Seq<u8>, y: Seq<u8>)
    requires
        lex_le(p, x),
        lex_le(x, y),
        starts_with(y, p),
    ensures
        starts_with(x, p),
{
    let n = p.len() as int;
    assert(p.subrange(0, n) =~= p);
    if p == x {
    } else if x == y {
    } else {
        let k = choose|k: int| lt_at(p, x, k);
        let j = choose|j: int| lt_at(x, y, j);
        if k < n {
            // p and x differ at k, with p[k] < x[k]; y agrees with p there.
            assert(y.subrange(0, n)[k] == y[k]);
            if j <= k {
                lemma_subrange_shrink(p, x, k, j);
                if j < k {
                    lemma_subrange_index(p, x, k, j);
                }
                assert(y.subrange(0, n)[j] == y[j]);
                assert(false);
            } else {
                lemma_subrange_index(x, y, j, k);
                assert(false);
            }
        } else {
            assert(x.subrange(0, n) =~= p);
        }
    }
}

/// Compares two byte strings lexicographically.
pub fn compare(a: &[u8], b: &[u8]) -> (r: Order)
    ensures
        r == order_of(a@, b@),
        r == Order::Less <==> lex_lt(a@, b@),
        r == Order::Equal <==> a@ == b@,
        r == Order::Greater <==> lex_lt(b@, a@),
{
    let mut i: usize = 0;
    while i < a.len() && i < b.len()
        invariant
            0 <= i <= a.len(),
            i <= b.len(),
            a@.subrange(0, i as int) == b@.subrange(0, i as int),
        decreases a.len() - i,
    {
        if a[i] < b[i] {
            proof {
                assert(lt_at(a@, b@, i as int));
                lemma_lt_asymmetric(a@, b@);
            }
            return Order::Less;
        }
        if b[i] < a[i] {
            proof {
                assert(lt_at(b@, a@, i as int));
                lemma_lt_asymmetric(b@, a@);
            }
            return Order::Greater;
        }
        proof {
            assert(a@.subrange(0, i + 1) =~= a@.subrange(0, i as int).push(a@[i as int]));
            assert(b@.subrange(0, i + 1) =~= b@.subrange(0, i as int).push(b@[i as int]));
        }
        i += 1;
    }
    if i < b.len() {
        proof {
            assert(lt_at(a@, b@, i as int));
            lemma_lt_asymmetric(a@, b@);
        }
        Order::Less
    } else if i < a.len() {
        proof {
            assert(lt_at(b@, a@, i as int));
            lemma_lt_asymmetric(b@, a@);
        }
        Order::Greater
    } else {
        proof {
            assert(a@.subrange(0, i as int) =~= a@);
            assert(b@.subrange(0, i as int) =~= b@);
            lemma_lt_irreflexive(a@);
        }
        Order::Equal
    }
}

/// Tells whether `s` begins with `p`.
pub fn has_prefix(s: &[u8], p: &[u8]) -> (r: bool)
    ensures
        r == starts_with(s@, p@),
{
    if p.len() > s.len() {
        return false;
    }
    let mut i: usize = 0;
    while i < p.len()
        invariant
            0 <= i <= p.len() <= s.len(),
            s@.subrange(0, i as int) == p@.subrange(0, i as int),
        decreases p.len() - i,
    {
        if s[i] != p[i] {
            proof {
                assert(s@.subrange(0, p.len() as int)[i as int] == s@[i as int]);
            }
            return false;
        }
        proof {
            assert(s@.subrange(0, i + 1) =~= s@.subrange(0, i as int).push(s@[i as int]));
            assert(p@.subrange(0, i + 1) =~= p@.subrange(0, i as int).push(p@[i as int]));
        }
        i += 1;
    }
    proof {
        assert(p@.subrange(0, i as int) =~= p@);
    }
    true
}

/// Tells whether two byte strings are equal.
pub fn same_bytes(a: &[u8], b: &[u8]) -> (r: bool)
    ensures
        r == (a@ == b@),
{
    if a.len() != b.len() {
        return false;
    }
    proof {
        assert(a@.subrange(0, b@.len() as int) =~= a@);
    }
    has_prefix(a, b)
}

} // verus!
