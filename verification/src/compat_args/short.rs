//! Short options: two bytes, with the value behind them in the same token or
//! in the next.

use vstd::prelude::*;
use vstd::slice::slice_subrange;
use vstd::slice::slice_to_vec;
use crate::compat_args::table::Table;
use crate::compat_args::Tokens;

verus! {

/// The short options of a registry, each with its handler.
#[derive(Debug)]
pub struct Shorts<A> {
    inner: Table<A>,
}

/// A short option was registered twice.
#[derive(Debug, Clone, Copy, PartialEq, Eq)]
pub struct DuplicateShortError {
    pub name: [u8; 2],
}

/// An option stands last in the stream, where its value should follow.
#[derive(Debug, Clone, PartialEq, Eq)]
pub struct MissingValueError {
    pub option: Vec<u8>,
}

impl<A> View for Shorts<A> {
    type V = Map<Seq<u8>, A>;

    closed spec fn view(&self) -> Map<Seq<u8>, A> {
        self.inner@
    }
}

/// An option with its value, or the option that lacks one.
pub enum Valued<A> {
    /// No option begins the stream.
    NoMatch,
    /// The handler of the option, and the value given to it.
    Value(A, Seq<u8>),
    /// The option, which stands last without a value.
    Missing(Seq<u8>),
}

/// What looking for a short option at the head of `tokens` gives, and the
/// tokens that are left. The token's first two bytes name the option. Its
/// value is the rest of the token, or the next token where there is no rest.
pub open spec fn short_step<A>(shorts: Map<Seq<u8>, A>, tokens: Seq<Seq<u8>>) -> (Valued<A>, Seq<Seq<u8>>) {
    if tokens.len() > 0 && tokens[0].len() >= 2 && shorts.contains_key(tokens[0].subrange(0, 2)) {
        let handler = shorts[tokens[0].subrange(0, 2)];
        if tokens[0].len() > 2 {
            (Valued::Value(handler, tokens[0].subrange(2, tokens[0].len() as int)), tokens.drop_first())
        } else if tokens.len() > 1 {
            (Valued::Value(handler, tokens[1]), tokens.drop_first().drop_first())
        } else {
            (Valued::Missing(tokens[0]), tokens.drop_first())
        }
    } else {
        (Valued::NoMatch, tokens)
    }
}

/// The outcome of an option parser, as a mathematical value.
pub open spec fn valued_of<A>(r: Result<Option<(A, Vec<u8>)>, MissingValueError>) -> Valued<A> {
    match r {
        Ok(None) => Valued::NoMatch,
        Ok(Some((a, v))) => Valued::Value(a, v@),
        Err(e) => Valued::Missing(e.option@),
    }
}

impl<A: Copy> Shorts<A> {
    /// The registry without any short option.
    pub fn new() -> (r: Shorts<A>)
        ensures
            r@ == Map::<Seq<u8>, A>::empty(),
    {
        Shorts { inner: Table::new() }
    }

    /// Registers a short option; fails if it is registered already.
    pub fn try_insert(&mut self, name: [u8; 2], parser: A) -> (r: Result<(), DuplicateShortError>)
        ensures
            match r {
                Ok(_) => !old(self)@.contains_key(name@) && final(self)@ == old(self)@.insert(name@, parser),
                Err(e) => old(self)@.contains_key(name@) && final(self)@ == old(self)@ && e.name == name,
            },
    {
        let mut key: Vec<u8> = Vec::new();
        key.push(name[0]);
        key.push(name[1]);
        proof {
            assert(key@ =~= name@);
        }
        if self.inner.try_insert(key, parser) {
            Ok(())
        } else {
            Err(DuplicateShortError { name })
        }
    }

    /// Registers a short option that is not registered yet.
    pub fn insert(&mut self, name: [u8; 2], parser: A)
        requires
            !old(self)@.contains_key(name@),
        ensures
            final(self)@ == old(self)@.insert(name@, parser),
    {
        let added = self.try_insert(name, parser);
    }

    /// Matches the next token as a short option, and takes the option and
    /// its value out of the stream if it is one.
    pub fn parse_argument(&self, args: &mut Tokens) -> (r: Result<Option<(A, Vec<u8>)>, MissingValueError>)
        ensures
            (valued_of(r), final(args).remaining()) == short_step(self@, old(args).remaining()),
    {
        let parser = match args.peek() {
            Some(arg) => {
                if arg.len() < 2 {
                    None
                } else {
                    self.inner.get(slice_subrange(arg.as_slice(), 0, 2))
                }
            },
            None => None,
        };
        let parser = match parser {
            Some(p) => p,
            None => {
                return Ok(None);
            },
        };
        let token = match args.next() {
            Some(t) => t,
            None => {
                return Ok(None);
            },
        };
        if token.len() <= 2 {
            match args.next() {
                Some(v) => Ok(Some((parser, v))),
                None => Err(MissingValueError { option: token }),
            }
        } else {
            let value = slice_to_vec(slice_subrange(token.as_slice(), 2, token.len()));
            Ok(Some((parser, value)))
        }
    }
}

} // verus!
