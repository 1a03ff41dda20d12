//! Decoding of command-line tokens against a registry of flags, short
//! options and long options.

pub mod flag;
pub mod long;
pub mod short;
pub mod table;

use vstd::prelude::*;
use vstd::slice::slice_to_vec;
use crate::compat_args::flag::flag_step;
use crate::compat_args::flag::DuplicateFlagError;
use crate::compat_args::flag::Flags;
use crate::compat_args::long::long_step;
use crate::compat_args::long::DuplicateLongError;
use crate::compat_args::long::Longs;
use crate::compat_args::short::short_step;
use crate::compat_args::short::DuplicateShortError;
use crate::compat_args::short::Shorts;
use crate::compat_args::short::Valued;

verus! {

/// A stream of tokens with a cursor: what was read is gone, the rest can be
/// looked at and taken one by one.
#[derive(Debug)]
pub struct Tokens {
    tokens: Vec<Vec<u8>>,
    pos: usize,
}

impl Tokens {
    #[verifier::type_invariant]
    spec fn in_bounds(self) -> bool {
        self.pos <= self.tokens@.len()
    }

    /// The tokens that were not taken yet.
    pub closed spec fn remaining(&self) -> Seq<Seq<u8>> {
        self.tokens@.map_values(|t: Vec<u8>| t@).skip(self.pos as int)
    }

    /// A stream over all of `tokens`.
    pub fn new(tokens: Vec<Vec<u8>>) -> (r: Tokens)
        ensures
            r.remaining() == tokens@.map_values(|t: Vec<u8>| t@),
    {
        let r = Tokens { tokens, pos: 0 };
        proof {
            assert(r.remaining() =~= tokens@.map_values(|t: Vec<u8>| t@));
        }
        r
    }

    /// The next token, which stays in the stream.
    pub fn peek(&self) -> (r: Option<&Vec<u8>>)
        ensures
            match r {
                Some(t) => self.remaining().len() > 0 && t@ == self.remaining()[0],
                None => self.remaining().len() == 0,
            },
    {
        proof {
            use_type_invariant(self);
        }
        if self.pos < self.tokens.len() {
            Some(&self.tokens[self.pos])
        } else {
            None
        }
    }

    /// Takes the next token out of the stream.
    pub fn next(&mut self) -> (r: Option<Vec<u8>>)
        ensures
            match r {
                Some(t) => old(self).remaining().len() > 0 && t@ == old(self).remaining()[0]
                    && final(self).remaining() == old(self).remaining().drop_first(),
                None => old(self).remaining().len() == 0
                    && final(self).remaining() == old(self).remaining(),
            },
    {
        proof {
            use_type_invariant(&*self);
        }
        if self.pos < self.tokens.len() {
            let t = slice_to_vec(self.tokens[self.pos].as_slice());
            self.pos = self.pos + 1;
            proof {
                assert(self.remaining() =~= old(self).remaining().drop_first());
            }
            Some(t)
        } else {
            None
        }
    }
}

/// The byte `-`, with which every option begins.
pub const DASH: u8 = 0x2d;

/// A registry of options: flags with their producers, short and long
/// options with their parsers, and the parser of the tokens that are no
/// option.
#[derive(Debug)]
pub struct Args<F, P> {
    pub flags: Flags<F>,
    pub shorts: Shorts<P>,
    pub longs: Longs<P>,
    pub plain_handler: Option<P>,
}

/// A registry as a mathematical value: three maps from names to handlers,
/// and the handler of plain tokens.
pub struct ArgsModel<F, P> {
    pub flags: Map<Seq<u8>, F>,
    pub shorts: Map<Seq<u8>, P>,
    pub longs: Map<Seq<u8>, P>,
    pub plain: Option<P>,
}

impl<F, P> View for Args<F, P> {
    type V = ArgsModel<F, P>;

    open spec fn view(&self) -> ArgsModel<F, P> {
        ArgsModel {
            flags: self.flags@,
            shorts: self.shorts@,
            longs: self.longs@,
            plain: self.plain_handler,
        }
    }
}

/// An option was registered twice.
#[derive(Debug, Clone, PartialEq, Eq)]
pub enum DuplicateOptionError {
    Flag(DuplicateFlagError),
    Short(DuplicateShortError),
    Long(DuplicateLongError),
}

/// One decoded argument: the producer of a flag, or a parser with the value
/// that goes to it.
#[derive(Debug, Clone, PartialEq, Eq)]
pub enum Decoded<F, P> {
    Flag(F),
    Value(P, Vec<u8>),
}

/// One decoded argument, as a mathematical value.
pub enum DecodedModel<F, P> {
    Flag(F),
    Value(P, Seq<u8>),
}

impl<F, P> View for Decoded<F, P> {
    type V = DecodedModel<F, P>;

    open spec fn view(&self) -> DecodedModel<F, P> {
        match *self {
            Decoded::Flag(f) => DecodedModel::Flag(f),
            Decoded::Value(p, v) => DecodedModel::Value(p, v@),
        }
    }
}

/// A token that cannot be decoded.
#[derive(Debug, Clone, PartialEq, Eq)]
pub enum ParseArgumentError {
    /// The token begins with `-` and is no registered option.
    UnrecognizedOption(Vec<u8>),
    /// The option stands last, where its value should follow.
    MissingOptionValue(Vec<u8>),
    /// The token is no option, and the registry has no handler for such.
    UnexpectedArgument(Vec<u8>),
}

/// A token that cannot be decoded, as a mathematical value.
pub enum Failure {
    UnrecognizedOption(Seq<u8>),
    MissingOptionValue(Seq<u8>),
    UnexpectedArgument(Seq<u8>),
}

impl View for ParseArgumentError {
    type V = Failure;

    open spec fn view(&self) -> Failure {
        match *self {
            ParseArgumentError::UnrecognizedOption(t) => Failure::UnrecognizedOption(t@),
            ParseArgumentError::MissingOptionValue(t) => Failure::MissingOptionValue(t@),
            ParseArgumentError::UnexpectedArgument(t) => Failure::UnexpectedArgument(t@),
        }
    }
}

/// An option with its value, as the outcome of a decoding step.
pub open spec fn valued_outcome<F, P>(v: Valued<P>) -> Result<DecodedModel<F, P>, Failure>
    recommends
        !(v is NoMatch),
{
    match v {
        Valued::Value(p, value) => Ok(DecodedModel::Value(p, value)),
        Valued::Missing(option) => Err(Failure::MissingOptionValue(option)),
        Valued::NoMatch => arbitrary(),
    }
}

/// Decodes the head of `tokens`: the decoded argument or the failure, and
/// the tokens that are left. The token is tried, in this order, as a flag,
/// as a short option, as a long option; a token that is none of them is an
/// error if it begins with `-`, and goes to the plain handler if not.
pub open spec fn step<F, P>(m: ArgsModel<F, P>, tokens: Seq<Seq<u8>>) -> (
    Result<DecodedModel<F, P>, Failure>,
    Seq<Seq<u8>>,
)
    recommends
        tokens.len() > 0,
{
    let flag = flag_step(m.flags, tokens);
    let short = short_step(m.shorts, tokens);
    let long = long_step(m.longs, tokens);
    if flag.0 is Some {
        (Ok(DecodedModel::Flag(flag.0->0)), flag.1)
    } else if !(short.0 is NoMatch) {
        (valued_outcome(short.0), short.1)
    } else if !(long.0 is NoMatch) {
        (valued_outcome(long.0), long.1)
    } else if tokens[0].len() > 0 && tokens[0][0] == DASH {
        (Err(Failure::UnrecognizedOption(tokens[0])), tokens.drop_first())
    } else {
        match m.plain {
            Some(handler) => (Ok(DecodedModel::Value(handler, tokens[0])), tokens.drop_first()),
            None => (Err(Failure::UnexpectedArgument(tokens[0])), tokens.drop_first()),
        }
    }
}

/// Every decoding step takes at least one token.
pub proof fn lemma_step_consumes<F, P>(m: ArgsModel<F, P>, tokens: Seq<Seq<u8>>)
    requires
        tokens.len() > 0,
    ensures
        step(m, tokens).1.len() < tokens.len(),
{
}

/// Decodes all of `tokens`, up to the first failure.
pub open spec fn decode_all<F, P>(m: ArgsModel<F, P>, tokens: Seq<Seq<u8>>) -> Result<
    Seq<DecodedModel<F, P>>,
    Failure,
>
    decreases tokens.len(),
{
    if tokens.len() == 0 {
        Ok(Seq::empty())
    } else {
        match step(m, tokens) {
            (Err(f), _) => Err(f),
            (Ok(d), rest) => {
                proof {
                    lemma_step_consumes(m, tokens);
                }
                match decode_all(m, rest) {
                    Ok(ds) => Ok(seq![d] + ds),
                    Err(f) => Err(f),
                }
            },
        }
    }
}

/// The decoded arguments of a list, as mathematical values.
pub open spec fn decoded_views<F, P>(v: Seq<Decoded<F, P>>) -> Seq<DecodedModel<F, P>> {
    v.map_values(|d: Decoded<F, P>| d@)
}

/// The arguments of a token stream, decoded one by one against a registry.
#[derive(Debug)]
pub struct ArgsIter<'a, F, P> {
    inner: Tokens,
    args: &'a Args<F, P>,
}

impl<'a, F: Copy, P: Copy> ArgsIter<'a, F, P> {
    /// The tokens that were not decoded yet.
    pub closed spec fn remaining(&self) -> Seq<Seq<u8>> {
        self.inner.remaining()
    }

    /// The registry against which the tokens are decoded.
    pub closed spec fn schema(&self) -> ArgsModel<F, P> {
        self.args@
    }

    /// Decodes the next argument; says `None` at the end of the stream.
    pub fn next(&mut self) -> (r: Option<Result<Decoded<F, P>, ParseArgumentError>>)
        ensures
            final(self).schema() == old(self).schema(),
            match r {
                None => old(self).remaining().len() == 0 && final(self).remaining() == old(self).remaining(),
                Some(Ok(d)) => old(self).remaining().len() > 0 && (
                    Ok::<DecodedModel<F, P>, Failure>(d@),
                    final(self).remaining(),
                ) == step(old(self).schema(), old(self).remaining()),
                Some(Err(e)) => old(self).remaining().len() > 0 && (
                    Err::<DecodedModel<F, P>, Failure>(e@),
                    final(self).remaining(),
                ) == step(old(self).schema(), old(self).remaining()),
            },
    {
        if self.inner.peek().is_none() {
            return None;
        }
        // The order of these attempts is part of the grammar.
        match self.args.flags.parse_argument(&mut self.inner) {
            Some(producer) => {
                return Some(Ok(Decoded::Flag(producer)));
            },
            None => {},
        }
        match self.args.shorts.parse_argument(&mut self.inner) {
            Ok(Some((parser, value))) => {
                return Some(Ok(Decoded::Value(parser, value)));
            },
            Err(e) => {
                return Some(Err(ParseArgumentError::MissingOptionValue(e.option)));
            },
            Ok(None) => {},
        }
        match self.args.longs.parse_argument(&mut self.inner) {
            Ok(Some((parser, value))) => {
                return Some(Ok(Decoded::Value(parser, value)));
            },
            Err(e) => {
                return Some(Err(ParseArgumentError::MissingOptionValue(e.option)));
            },
            Ok(None) => {},
        }
        let other = match self.inner.next() {
            Some(t) => t,
            None => {
                return None;
            },
        };
        if other.len() > 0 && other[0] == DASH {
            return Some(Err(ParseArgumentError::UnrecognizedOption(other)));
        }
        match self.args.plain_handler {
            Some(parser) => Some(Ok(Decoded::Value(parser, other))),
            None => Some(Err(ParseArgumentError::UnexpectedArgument(other))),
        }
    }

    /// Decodes what is left of the stream, up to the first failure.
    pub fn collect(self) -> (r: Result<Vec<Decoded<F, P>>, ParseArgumentError>)
        ensures
            match r {
                Ok(v) => decode_all(self.schema(), self.remaining()) == Ok::<Seq<DecodedModel<F, P>>, Failure>(
                    decoded_views(v@),
                ),
                Err(e) => decode_all(self.schema(), self.remaining()) == Err::<Seq<DecodedModel<F, P>>, Failure>(
                    e@,
                ),
            },
    {
        let ghost m = self.schema();
        let ghost all = self.remaining();
        let mut iter = self;
        let mut out: Vec<Decoded<F, P>> = Vec::new();
        loop
            invariant
                iter.schema() == m,
                m == self.schema(),
                all == self.remaining(),
                match decode_all(m, iter.remaining()) {
                    Ok(ds) => decode_all(m, all) == Ok::<Seq<DecodedModel<F, P>>, Failure>(
                        decoded_views(out@) + ds,
                    ),
                    Err(f) => decode_all(m, all) == Err::<Seq<DecodedModel<F, P>>, Failure>(f),
                },
            decreases iter.remaining().len(),
        {
            let ghost before = out@;
            let ghost tokens = iter.remaining();
            proof {
                if tokens.len() > 0 {
                    lemma_step_consumes(m, tokens);
                }
            }
            match iter.next() {
                None => {
                    proof {
                        assert(decoded_views(out@) + Seq::<DecodedModel<F, P>>::empty() =~= decoded_views(out@));
                    }
                    return Ok(out);
                },
                Some(Err(e)) => {
                    return Err(e);
                },
                Some(Ok(d)) => {
                    out.push(d);
                    proof {
                        assert(decoded_views(out@) =~= decoded_views(before) + seq![d@]);
                        match decode_all(m, iter.remaining()) {
                            Ok(ds) => {
                                assert(decoded_views(before) + (seq![d@] + ds) =~= decoded_views(out@) + ds);
                            },
                            Err(_) => {},
                        }
                    }
                },
            }
        }
    }
}

impl<F: Copy, P: Copy> Args<F, P> {
    /// The registry without any option and without a plain handler.
    pub fn new() -> (r: Args<F, P>)
        ensures
            r@ == (ArgsModel::<F, P> {
                flags: Map::empty(),
                shorts: Map::empty(),
                longs: Map::empty(),
                plain: None,
            }),
    {
        Args { flags: Flags::new(), shorts: Shorts::new(), longs: Longs::new(), plain_handler: None }
    }

    /// Registers a flag; fails if it is registered already.
    pub fn register_flag(&mut self, name: Vec<u8>, producer: F) -> (r: Result<(), DuplicateOptionError>)
        ensures
            r is Ok <==> !old(self)@.flags.contains_key(name@),
            final(self)@ == if r is Ok {
                ArgsModel { flags: old(self)@.flags.insert(name@, producer), ..old(self)@ }
            } else {
                old(self)@
            },
            r matches Err(e) ==> e matches DuplicateOptionError::Flag(d) && d.flag@ == name@,
    {
        match self.flags.try_insert(name, producer) {
            Ok(_) => Ok(()),
            Err(e) => Err(DuplicateOptionError::Flag(e)),
        }
    }

    /// Registers a short option; fails if it is registered already.
    pub fn register_short(&mut self, name: [u8; 2], parser: P) -> (r: Result<(), DuplicateOptionError>)
        ensures
            r is Ok <==> !old(self)@.shorts.contains_key(name@),
            final(self)@ == if r is Ok {
                ArgsModel { shorts: old(self)@.shorts.insert(name@, parser), ..old(self)@ }
            } else {
                old(self)@
            },
            r matches Err(e) ==> e matches DuplicateOptionError::Short(d) && d.name == name,
    {
        match self.shorts.try_insert(name, parser) {
            Ok(_) => Ok(()),
            Err(e) => Err(DuplicateOptionError::Short(e)),
        }
    }

    /// Registers a long option; fails if it is registered already.
    pub fn register_long(&mut self, name: Vec<u8>, parser: P) -> (r: Result<(), DuplicateOptionError>)
        ensures
            r is Ok <==> !old(self)@.longs.contains_key(name@),
            final(self)@ == if r is Ok {
                ArgsModel { longs: old(self)@.longs.insert(name@, parser), ..old(self)@ }
            } else {
                old(self)@
            },
            r matches Err(e) ==> e matches DuplicateOptionError::Long(d) && d.name@ == name@,
    {
        match self.longs.try_insert(name, parser) {
            Ok(_) => Ok(()),
            Err(e) => Err(DuplicateOptionError::Long(e)),
        }
    }

    /// Sets the parser of the tokens that are no option.
    pub fn set_plain_handler(&mut self, parser: P)
        ensures
            final(self)@ == (ArgsModel { plain: Some(parser), ..old(self)@ }),
    {
        self.plain_handler = Some(parser);
    }

    /// Turns a list of tokens into the stream of its decoded arguments.
    pub fn map_iter<'a>(&'a self, tokens: Vec<Vec<u8>>) -> (r: ArgsIter<'a, F, P>)
        ensures
            r.schema() == self@,
            r.remaining() == tokens@.map_values(|t: Vec<u8>| t@),
    {
        ArgsIter { inner: Tokens::new(tokens), args: self }
    }
}

} // verus!
