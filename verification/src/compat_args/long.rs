//! Long options: a name, with the value behind `=` in the same token or in
//! the next token.

use vstd::prelude::*;
use vstd::slice::slice_subrange;
use vstd::slice::slice_to_vec;
use crate::compat_args::short::valued_of;
use crate::compat_args::short::MissingValueError;
use crate::compat_args::short::Valued;
use crate::compat_args::table::Table;
use crate::compat_args::Tokens;

verus! {

/// The byte `=`.
pub const EQUALS: u8 = 0x3d;

/// The long options of a registry, each with its handler.
#[derive(Debug)]
pub struct Longs<A> {
    inner: Table<A>,
}

/// A long option was registered twice.
#[derive(Debug, Clone, PartialEq, Eq)]
pub struct DuplicateLongError {
    pub name: Vec<u8>,
}

impl<A> View for Longs<A> {
    type V = Map<Seq<u8>, A>;

    closed spec fn view(&self) -> Map<Seq<u8>, A> {
        self.inner@
    }
}

/// Place of the first `=` in `token`, or its length if it holds none.
pub open spec fn name_len(token: Seq<u8>) -> int
    decreases token.len(),
{
    if token.len() == 0 || token[0] == EQUALS {
        0
    } else {
        1 + name_len(token.drop_first())
    }
}

/// What looking for a long option at the head of `tokens` gives, and the
/// tokens that are left. The option's name is the token up to its first `=`.
/// Its value is what follows the `=`, or the next token where there is no
/// `=`.
pub open spec fn long_step<A>(longs: Map<Seq<u8>, A>, tokens: Seq<Seq<u8>>) -> (Valued<A>, Seq<Seq<u8>>) {
    if tokens.len() > 0 && longs.contains_key(tokens[0].subrange(0, name_len(tokens[0]))) {
        let n = name_len(tokens[0]);
        let handler = longs[tokens[0].subrange(0, n)];
        if n < tokens[0].len() {
            (Valued::Value(handler, tokens[0].subrange(n + 1, tokens[0].len() as int)), tokens.drop_first())
        } else if tokens.len() > 1 {
            (Valued::Value(handler, tokens[1]), tokens.drop_first().drop_first())
        } else {
            (Valued::Missing(tokens[0]), tokens.drop_first())
        }
    } else {
        (Valued::NoMatch, tokens)
    }
}

/// The name of an option ends before the first `=`, within the token.
pub proof fn lemma_name_len(token: Seq<u8>)
    ensures
        0 <= name_len(token) <= token.len(),
        forall|i: int| 0 <= i < name_len(token) ==> token[i] != EQUALS,
        name_len(token) < token.len() ==> token[name_len(token)] == EQUALS,
    decreases token.len(),
{
    if token.len() > 0 && token[0] != EQUALS {
        lemma_name_len(token.drop_first());
        assert forall|i: int| 0 <= i < name_len(token) implies token[i] != EQUALS by {
            if i > 0 {
                assert(token.drop_first()[i - 1] == token[i]);
            }
        }
    }
}

/// Finds the first `=` in `token`.
fn find_equals(token: &[u8]) -> (n: usize)
    ensures
        n == name_len(token@),
        n <= token@.len(),
{
    let mut i: usize = 0;
    proof {
        assert(token@.skip(0) =~= token@);
        lemma_name_len(token@);
    }
    while i < token.len() && token[i] != EQUALS
        invariant
            i <= token@.len(),
            name_len(token@) == i + name_len(token@.skip(i as int)),
        decreases token@.len() - i,
    {
        proof {
            assert(token@.skip(i as int).drop_first() =~= token@.skip(i + 1));
        }
        i += 1;
    }
    i
}

impl<A: Copy> Longs<A> {
    /// The registry without any long option.
    pub fn new() -> (r: Longs<A>)
        ensures
            r@ == Map::<Seq<u8>, A>::empty(),
    {
        Longs { inner: Table::new() }
    }

    /// Registers a long option; fails if it is registered already.
    pub fn try_insert(&mut self, name: Vec<u8>, parser: A) -> (r: Result<(), DuplicateLongError>)
        ensures
            match r {
                Ok(_) => !old(self)@.contains_key(name@) && final(self)@ == old(self)@.insert(name@, parser),
                Err(e) => old(self)@.contains_key(name@) && final(self)@ == old(self)@ && e.name@ == name@,
            },
    {
        if self.inner.get(name.as_slice()).is_some() {
            return Err(DuplicateLongError { name });
        }
        let added = self.inner.try_insert(name, parser);
        Ok(())
    }

    /// Registers a long option that is not registered yet.
    pub fn insert(&mut self, name: Vec<u8>, parser: A)
        requires
            !old(self)@.contains_key(name@),
        ensures
            final(self)@ == old(self)@.insert(name@, parser),
    {
        let added = self.inner.try_insert(name, parser);
    }

    /// Matches the next token as a long option, and takes the option and its
    /// value out of the stream if it is one.
    pub fn parse_argument(&self, args: &mut Tokens) -> (r: Result<Option<(A, Vec<u8>)>, MissingValueError>)
        ensures
            (valued_of(r), final(args).remaining()) == long_step(self@, old(args).remaining()),
    {
        let found = match args.peek() {
            Some(arg) => {
                let n = find_equals(arg.as_slice());
                match self.inner.get(slice_subrange(arg.as_slice(), 0, n)) {
                    Some(p) => Some((p, n)),
                    None => None,
                }
            },
            None => None,
        };
        let (parser, n) = match found {
            Some(f) => f,
            None => {
                return Ok(None);
            },
        };
        let token = match args.next() {
            Some(t) => t,
            None => {
                return Ok(None);
            },
        };
        if n < token.len() {
            let value = slice_to_vec(slice_subrange(token.as_slice(), n + 1, token.len()));
            Ok(Some((parser, value)))
        } else {
            match args.next() {
                Some(v) => Ok(Some((parser, v))),
                None => Err(MissingValueError { option: token }),
            }
        }
    }
}

} // verus!
