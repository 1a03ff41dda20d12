//! Flags: options that are a whole token and take no value.

use vstd::prelude::*;
use crate::compat_args::table::Table;
use crate::compat_args::Tokens;

verus! {

/// The flags of a registry, each with its handler.
#[derive(Debug)]
pub struct Flags<A> {
    inner: Table<A>,
}

/// A flag was registered twice.
#[derive(Debug, Clone, PartialEq, Eq)]
pub struct DuplicateFlagError {
    pub flag: Vec<u8>,
}

impl<A> View for Flags<A> {
    type V = Map<Seq<u8>, A>;

    closed spec fn view(&self) -> Map<Seq<u8>, A> {
        self.inner@
    }
}

/// What looking for a flag at the head of `tokens` gives: its handler, and
/// the tokens that are left.
pub open spec fn flag_step<A>(flags: Map<Seq<u8>, A>, tokens: Seq<Seq<u8>>) -> (Option<A>, Seq<Seq<u8>>) {
    if tokens.len() > 0 && flags.contains_key(tokens[0]) {
        (Some(flags[tokens[0]]), tokens.drop_first())
    } else {
        (None, tokens)
    }
}

impl<A: Copy> Flags<A> {
    /// The registry without any flag.
    pub fn new() -> (r: Flags<A>)
        ensures
            r@ == Map::<Seq<u8>, A>::empty(),
    {
        Flags { inner: Table::new() }
    }

    /// Registers a flag; fails if it is registered already.
    pub fn try_insert(&mut self, flag: Vec<u8>, producer: A) -> (r: Result<(), DuplicateFlagError>)
        ensures
            match r {
                Ok(_) => !old(self)@.contains_key(flag@) && final(self)@ == old(self)@.insert(flag@, producer),
                Err(e) => old(self)@.contains_key(flag@) && final(self)@ == old(self)@ && e.flag@ == flag@,
            },
    {
        if self.inner.get(flag.as_slice()).is_some() {
            return Err(DuplicateFlagError { flag });
        }
        let added = self.inner.try_insert(flag, producer);
        Ok(())
    }

    /// Registers a flag that is not registered yet.
    pub fn insert(&mut self, flag: Vec<u8>, producer: A)
        requires
            !old(self)@.contains_key(flag@),
        ensures
            final(self)@ == old(self)@.insert(flag@, producer),
    {
        let added = self.inner.try_insert(flag, producer);
    }

    /// Matches the next token as a flag, and takes it out of the stream if
    /// it is one.
    pub fn parse_argument(&self, args: &mut Tokens) -> (r: Option<A>)
        requires
            old(args).remaining().len() > 0,
        ensures
            (r, final(args).remaining()) == flag_step(self@, old(args).remaining()),
    {
        let producer = match args.peek() {
            Some(arg) => self.inner.get(arg.as_slice()),
            None => None,
        };
        match producer {
            Some(p) => {
                let taken = args.next();
                Some(p)
            },
            None => None,
        }
    }
}

} // verus!
