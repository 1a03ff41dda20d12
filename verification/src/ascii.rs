//! Byte strings written as text.

use vstd::prelude::*;
use vstd::string::StrSliceExecFns;

verus! {

/// The bytes of a text of ASCII characters, one byte for each character.
pub open spec fn ascii(s: Seq<char>) -> Seq<u8> {
    s.map_values(|c: char| c as u8)
}

/// Converts a text of ASCII characters to its bytes.
pub fn ascii_bytes(s: &str) -> (v: Vec<u8>)
    ensures
        v@ == ascii(s@),
{
    let n = s.unicode_len();
    let mut v: Vec<u8> = Vec::new();
    let mut i: usize = 0;
    while i < n
        invariant
            i <= n,
            n == s@.len(),
            v@ == ascii(s@.subrange(0, i as int)),
        decreases n - i,
    {
        let c = s.get_char(i);
        v.push(c as u8);
        proof {
            assert(s@.subrange(0, i + 1) =~= s@.subrange(0, i as int).push(c));
            assert(v@ =~= ascii(s@.subrange(0, i + 1)));
        }
        i += 1;
    }
    proof {
        assert(s@.subrange(0, n as int) =~= s@);
    }
    v
}

} // verus!
