//! The arguments of an `ld`-compatible command line.

use vstd::prelude::*;
use vstd::slice::slice_subrange;
use vstd::slice::slice_to_vec;
use crate::ascii::ascii;
use crate::ascii::ascii_bytes;
use crate::compat_args::lemma_step_consumes;
use crate::compat_args::step;
use crate::compat_args::Args;
use crate::compat_args::ArgsModel;
use crate::compat_args::Decoded;
use crate::compat_args::DecodedModel;
use crate::compat_args::Failure;
use crate::compat_args::ParseArgumentError;
use crate::lexicographic::same_bytes;

verus! {

/// The byte `:`, which marks a library given by its file name.
pub const COLON: u8 = 0x3a;

/// What a flag of the command line produces.
#[derive(Debug, Clone, Copy, PartialEq, Eq, Structural)]
pub enum Flag {
    AsNeeded(bool),
    BDynamic,
    BStatic,
    EhFrameHdr,
    GcSections(bool),
    PicExecutable,
    Shared,
    WholeArchive(bool),
}

/// What the value of an option, or a plain token, is parsed as.
#[derive(Debug, Clone, Copy, PartialEq, Eq, Structural)]
pub enum Parser {
    InputFile,
    Library,
    LibraryPath,
    Output,
    VersionScript,
    Z,
}

/// A library to link: looked up by its name, or given by its file name.
#[derive(Debug, Clone, PartialEq, Eq)]
pub enum Library {
    Name(Vec<u8>),
    File(Vec<u8>),
}

/// A library to link, as a mathematical value.
pub enum LibraryModel {
    Name(Seq<u8>),
    File(Seq<u8>),
}

impl View for Library {
    type V = LibraryModel;

    open spec fn view(&self) -> LibraryModel {
        match *self {
            Library::Name(n) => LibraryModel::Name(n@),
            Library::File(f) => LibraryModel::File(f@),
        }
    }
}

/// The library that the value of `-l` names: a file where the value begins
/// with `:`, which is taken off, and a name otherwise.
pub open spec fn library_of(val: Seq<u8>) -> LibraryModel {
    if val.len() > 0 && val[0] == COLON {
        LibraryModel::File(val.subrange(1, val.len() as int))
    } else {
        LibraryModel::Name(val)
    }
}

impl Library {
    /// Reads the value of `-l`.
    pub fn from(val: Vec<u8>) -> (r: Library)
        ensures
            r@ == library_of(val@),
    {
        if val.len() > 0 && val[0] == COLON {
            Library::File(slice_to_vec(slice_subrange(val.as_slice(), 1, val.len())))
        } else {
            Library::Name(val)
        }
    }
}

/// A keyword of the option `-z`.
#[derive(Debug, Clone, Copy, PartialEq, Eq, Structural)]
pub enum ZKeyword {
    Noexecstack,
}

/// The value of `-z` is no known keyword.
#[derive(Debug, Clone, Copy, PartialEq, Eq, Structural)]
pub enum ParseZKeywordError {
    Unknown,
}

impl ParseZKeywordError {
    /// The message that describes the error.
    pub fn message(&self) -> (r: &'static str)
        ensures
            r@ == "unknown -z keyword"@,
    {
        "unknown -z keyword"
    }
}

/// The keyword that a value of `-z` spells.
pub open spec fn z_keyword_of(s: Seq<u8>) -> Result<ZKeyword, ParseZKeywordError> {
    if s == ascii("noexecstack"@) {
        Ok(ZKeyword::Noexecstack)
    } else {
        Err(ParseZKeywordError::Unknown)
    }
}

impl ZKeyword {
    /// Reads a keyword of `-z`.
    pub fn from_str(s: &[u8]) -> (r: Result<ZKeyword, ParseZKeywordError>)
        ensures
            r == z_keyword_of(s@),
    {
        let word = ascii_bytes("noexecstack");
        if same_bytes(s, word.as_slice()) {
            Ok(ZKeyword::Noexecstack)
        } else {
            Err(ParseZKeywordError::Unknown)
        }
    }
}

/// One decoded argument of the command line.
#[derive(Debug, Clone, PartialEq, Eq)]
pub enum Argument {
    AsNeeded(bool),
    BDynamic,
    BStatic,
    EhFrameHdr,
    GcSections(bool),
    InputFile(Vec<u8>),
    Library(Library),
    LibraryPath(Vec<u8>),
    Output(Vec<u8>),
    PicExecutable,
    Shared,
    VersionScript(Vec<u8>),
    WholeArchive(bool),
    Z(ZKeyword),
}

/// One decoded argument, as a mathematical value.
pub enum ArgumentModel {
    AsNeeded(bool),
    BDynamic,
    BStatic,
    EhFrameHdr,
    GcSections(bool),
    InputFile(Seq<u8>),
    Library(LibraryModel),
    LibraryPath(Seq<u8>),
    Output(Seq<u8>),
    PicExecutable,
    Shared,
    VersionScript(Seq<u8>),
    WholeArchive(bool),
    Z(ZKeyword),
}

impl View for Argument {
    type V = ArgumentModel;

    open spec fn view(&self) -> ArgumentModel {
        match *self {
            Argument::AsNeeded(b) => ArgumentModel::AsNeeded(b),
            Argument::BDynamic => ArgumentModel::BDynamic,
            Argument::BStatic => ArgumentModel::BStatic,
            Argument::EhFrameHdr => ArgumentModel::EhFrameHdr,
            Argument::GcSections(b) => ArgumentModel::GcSections(b),
            Argument::InputFile(p) => ArgumentModel::InputFile(p@),
            Argument::Library(l) => ArgumentModel::Library(l@),
            Argument::LibraryPath(p) => ArgumentModel::LibraryPath(p@),
            Argument::Output(p) => ArgumentModel::Output(p@),
            Argument::PicExecutable => ArgumentModel::PicExecutable,
            Argument::Shared => ArgumentModel::Shared,
            Argument::VersionScript(p) => ArgumentModel::VersionScript(p@),
            Argument::WholeArchive(b) => ArgumentModel::WholeArchive(b),
            Argument::Z(z) => ArgumentModel::Z(z),
        }
    }
}

/// The argument that a flag produces.
pub open spec fn flag_argument(f: Flag) -> ArgumentModel {
    match f {
        Flag::AsNeeded(b) => ArgumentModel::AsNeeded(b),
        Flag::BDynamic => ArgumentModel::BDynamic,
        Flag::BStatic => ArgumentModel::BStatic,
        Flag::EhFrameHdr => ArgumentModel::EhFrameHdr,
        Flag::GcSections(b) => ArgumentModel::GcSections(b),
        Flag::PicExecutable => ArgumentModel::PicExecutable,
        Flag::Shared => ArgumentModel::Shared,
        Flag::WholeArchive(b) => ArgumentModel::WholeArchive(b),
    }
}

/// The argument that a value is parsed as.
pub open spec fn value_argument(p: Parser, value: Seq<u8>) -> Result<ArgumentModel, ParseZKeywordError> {
    match p {
        Parser::InputFile => Ok(ArgumentModel::InputFile(value)),
        Parser::Library => Ok(ArgumentModel::Library(library_of(value))),
        Parser::LibraryPath => Ok(ArgumentModel::LibraryPath(value)),
        Parser::Output => Ok(ArgumentModel::Output(value)),
        Parser::VersionScript => Ok(ArgumentModel::VersionScript(value)),
        Parser::Z => match z_keyword_of(value) {
            Ok(z) => Ok(ArgumentModel::Z(z)),
            Err(e) => Err(e),
        },
    }
}

impl Argument {
    /// The argument that a flag produces.
    pub fn from_flag(f: Flag) -> (r: Argument)
        ensures
            r@ == flag_argument(f),
    {
        match f {
            Flag::AsNeeded(b) => Argument::AsNeeded(b),
            Flag::BDynamic => Argument::BDynamic,
            Flag::BStatic => Argument::BStatic,
            Flag::EhFrameHdr => Argument::EhFrameHdr,
            Flag::GcSections(b) => Argument::GcSections(b),
            Flag::PicExecutable => Argument::PicExecutable,
            Flag::Shared => Argument::Shared,
            Flag::WholeArchive(b) => Argument::WholeArchive(b),
        }
    }

    /// Parses the value of an option, or a plain token.
    pub fn from_value(p: Parser, value: Vec<u8>) -> (r: Result<Argument, ParseZKeywordError>)
        ensures
            match r {
                Ok(a) => value_argument(p, value@) == Ok::<ArgumentModel, ParseZKeywordError>(a@),
                Err(e) => value_argument(p, value@) == Err::<ArgumentModel, ParseZKeywordError>(e),
            },
    {
        match p {
            Parser::InputFile => Ok(Argument::InputFile(value)),
            Parser::Library => Ok(Argument::Library(Library::from(value))),
            Parser::LibraryPath => Ok(Argument::LibraryPath(value)),
            Parser::Output => Ok(Argument::Output(value)),
            Parser::VersionScript => Ok(Argument::VersionScript(value)),
            Parser::Z => match ZKeyword::from_str(value.as_slice()) {
                Ok(z) => Ok(Argument::Z(z)),
                Err(e) => Err(e),
            },
        }
    }
}

/// The flags of the command line.
pub open spec fn ld_flags() -> Map<Seq<u8>, Flag> {
    Map::empty()
        .insert(ascii("--as-needed"@), Flag::AsNeeded(true))
        .insert(ascii("--no-as-needed"@), Flag::AsNeeded(false))
        .insert(ascii("-Bdynamic"@), Flag::BDynamic)
        .insert(ascii("-dy"@), Flag::BDynamic)
        .insert(ascii("-call_shared"@), Flag::BDynamic)
        .insert(ascii("-Bstatic"@), Flag::BStatic)
        .insert(ascii("-dn"@), Flag::BStatic)
        .insert(ascii("-non_shared"@), Flag::BStatic)
        .insert(ascii("-static"@), Flag::BStatic)
        .insert(ascii("--eh-frame-hdr"@), Flag::EhFrameHdr)
        .insert(ascii("--gc-sections"@), Flag::GcSections(true))
        .insert(ascii("--no-gc-sections"@), Flag::GcSections(false))
        .insert(ascii("-pie"@), Flag::PicExecutable)
        .insert(ascii("--pic-executable"@), Flag::PicExecutable)
        .insert(ascii("-shared"@), Flag::Shared)
        .insert(ascii("-Bshareable"@), Flag::Shared)
        .insert(ascii("--whole-archive"@), Flag::WholeArchive(true))
        .insert(ascii("--no-whole-archive"@), Flag::WholeArchive(false))
}

/// The short options of the command line.
pub open spec fn ld_shorts() -> Map<Seq<u8>, Parser> {
    Map::empty()
        .insert(ascii("-l"@), Parser::Library)
        .insert(ascii("-L"@), Parser::LibraryPath)
        .insert(ascii("-o"@), Parser::Output)
        .insert(ascii("-z"@), Parser::Z)
}

/// The long options of the command line.
pub open spec fn ld_longs() -> Map<Seq<u8>, Parser> {
    Map::empty()
        .insert(ascii("--library"@), Parser::Library)
        .insert(ascii("--library-path"@), Parser::LibraryPath)
        .insert(ascii("--output"@), Parser::Output)
        .insert(ascii("--version-script"@), Parser::VersionScript)
}

/// The registry of the command line: its flags and options, with every token
/// that is no option read as an input file.
pub open spec fn ld_schema() -> ArgsModel<Flag, Parser> {
    ArgsModel { flags: ld_flags(), shorts: ld_shorts(), longs: ld_longs(), plain: Some(Parser::InputFile) }
}

/// Length and two bytes of a name: names that differ in these differ.
spec fn mark(s: Seq<u8>) -> (nat, u8, u8) {
    (s.len(), s[1], s[2])
}

/// The two bytes of a short option's name.
fn short_name(s: &str) -> (r: [u8; 2])
    requires
        s@.len() == 2,
    ensures
        r@ == ascii(s@),
{
    let v = ascii_bytes(s);
    let r = [v[0], v[1]];
    proof {
        assert(r@ =~= ascii(s@));
    }
    r
}

/// Builds the registry of the command line.
pub fn args() -> (r: Args<Flag, Parser>)
    ensures
        r@ == ld_schema(),
{
    let mut args: Args<Flag, Parser> = Args::new();
    args.set_plain_handler(Parser::InputFile);
    proof {
        reveal_strlit("--as-needed");
        reveal_strlit("--no-as-needed");
        reveal_strlit("-Bdynamic");
        reveal_strlit("-dy");
        reveal_strlit("-call_shared");
        reveal_strlit("-Bstatic");
        reveal_strlit("-dn");
        reveal_strlit("-non_shared");
        reveal_strlit("-static");
        reveal_strlit("--eh-frame-hdr");
        reveal_strlit("--gc-sections");
        reveal_strlit("--no-gc-sections");
        reveal_strlit("-pie");
        reveal_strlit("--pic-executable");
        reveal_strlit("-shared");
        reveal_strlit("-Bshareable");
        reveal_strlit("--whole-archive");
        reveal_strlit("--no-whole-archive");
        assert(mark(ascii("--as-needed"@)) == (11nat, 0x2du8, 0x61u8));
        assert(mark(ascii("--no-as-needed"@)) == (14nat, 0x2du8, 0x6eu8));
        assert(mark(ascii("-Bdynamic"@)).0 == 9);
        assert(mark(ascii("-dy"@)) == (3nat, 0x64u8, 0x79u8));
        assert(mark(ascii("-call_shared"@)).0 == 12);
        assert(mark(ascii("-Bstatic"@)).0 == 8);
        assert(mark(ascii("-dn"@)) == (3nat, 0x64u8, 0x6eu8));
        assert(mark(ascii("-non_shared"@)) == (11nat, 0x6eu8, 0x6fu8));
        assert(mark(ascii("-static"@)) == (7nat, 0x73u8, 0x74u8));
        assert(mark(ascii("--eh-frame-hdr"@)) == (14nat, 0x2du8, 0x65u8));
        assert(mark(ascii("--gc-sections"@)).0 == 13);
        assert(mark(ascii("--no-gc-sections"@)) == (16nat, 0x2du8, 0x6eu8));
        assert(mark(ascii("-pie"@)).0 == 4);
        assert(mark(ascii("--pic-executable"@)) == (16nat, 0x2du8, 0x70u8));
        assert(mark(ascii("-shared"@)) == (7nat, 0x73u8, 0x68u8));
        assert(mark(ascii("-Bshareable"@)) == (11nat, 0x42u8, 0x73u8));
        assert(mark(ascii("--whole-archive"@)).0 == 15);
        assert(mark(ascii("--no-whole-archive"@)).0 == 18);
    }
    args.flags.insert(ascii_bytes("--as-needed"), Flag::AsNeeded(true));
    args.flags.insert(ascii_bytes("--no-as-needed"), Flag::AsNeeded(false));
    args.flags.insert(ascii_bytes("-Bdynamic"), Flag::BDynamic);
    args.flags.insert(ascii_bytes("-dy"), Flag::BDynamic);
    args.flags.insert(ascii_bytes("-call_shared"), Flag::BDynamic);
    args.flags.insert(ascii_bytes("-Bstatic"), Flag::BStatic);
    args.flags.insert(ascii_bytes("-dn"), Flag::BStatic);
    args.flags.insert(ascii_bytes("-non_shared"), Flag::BStatic);
    args.flags.insert(ascii_bytes("-static"), Flag::BStatic);
    args.flags.insert(ascii_bytes("--eh-frame-hdr"), Flag::EhFrameHdr);
    args.flags.insert(ascii_bytes("--gc-sections"), Flag::GcSections(true));
    args.flags.insert(ascii_bytes("--no-gc-sections"), Flag::GcSections(false));
    args.flags.insert(ascii_bytes("-pie"), Flag::PicExecutable);
    args.flags.insert(ascii_bytes("--pic-executable"), Flag::PicExecutable);
    args.flags.insert(ascii_bytes("-shared"), Flag::Shared);
    args.flags.insert(ascii_bytes("-Bshareable"), Flag::Shared);
    args.flags.insert(ascii_bytes("--whole-archive"), Flag::WholeArchive(true));
    args.flags.insert(ascii_bytes("--no-whole-archive"), Flag::WholeArchive(false));
    proof {
        reveal_strlit("-l");
        reveal_strlit("-L");
        reveal_strlit("-o");
        reveal_strlit("-z");
        assert(mark(ascii("-l"@)).1 == 0x6c);
        assert(mark(ascii("-L"@)).1 == 0x4c);
        assert(mark(ascii("-o"@)).1 == 0x6f);
        assert(mark(ascii("-z"@)).1 == 0x7a);
    }
    args.shorts.insert(short_name("-l"), Parser::Library);
    args.shorts.insert(short_name("-L"), Parser::LibraryPath);
    args.shorts.insert(short_name("-o"), Parser::Output);
    args.shorts.insert(short_name("-z"), Parser::Z);
    proof {
        reveal_strlit("--library");
        reveal_strlit("--library-path");
        reveal_strlit("--output");
        reveal_strlit("--version-script");
        assert(mark(ascii("--library"@)).0 == 9);
        assert(mark(ascii("--library-path"@)).0 == 14);
        assert(mark(ascii("--output"@)).0 == 8);
        assert(mark(ascii("--version-script"@)).0 == 16);
    }
    args.longs.insert(ascii_bytes("--library"), Parser::Library);
    args.longs.insert(ascii_bytes("--library-path"), Parser::LibraryPath);
    args.longs.insert(ascii_bytes("--output"), Parser::Output);
    args.longs.insert(ascii_bytes("--version-script"), Parser::VersionScript);
    args
}

/// A command line that cannot be decoded.
#[derive(Debug, Clone, PartialEq, Eq)]
pub enum ArgumentError {
    /// A token that the registry cannot decode.
    Parse(ParseArgumentError),
    /// A value of `-z` that is no known keyword.
    InvalidZKeyword(Vec<u8>),
}

/// A command line that cannot be decoded, as a mathematical value.
pub enum ArgumentFailure {
    Parse(Failure),
    InvalidZKeyword(Seq<u8>),
}

impl View for ArgumentError {
    type V = ArgumentFailure;

    open spec fn view(&self) -> ArgumentFailure {
        match *self {
            ArgumentError::Parse(e) => ArgumentFailure::Parse(e@),
            ArgumentError::InvalidZKeyword(v) => ArgumentFailure::InvalidZKeyword(v@),
        }
    }
}

/// The argument that a decoded token stands for.
pub open spec fn argument_of(d: DecodedModel<Flag, Parser>) -> Result<ArgumentModel, ArgumentFailure> {
    match d {
        DecodedModel::Flag(f) => Ok(flag_argument(f)),
        DecodedModel::Value(p, value) => match value_argument(p, value) {
            Ok(a) => Ok(a),
            Err(_) => Err(ArgumentFailure::InvalidZKeyword(value)),
        },
    }
}

/// The arguments that `tokens` spell against the registry `m`, up to the
/// first token that cannot be decoded.
pub open spec fn arguments_of(m: ArgsModel<Flag, Parser>, tokens: Seq<Seq<u8>>) -> Result<
    Seq<ArgumentModel>,
    ArgumentFailure,
>
    decreases tokens.len(),
{
    if tokens.len() == 0 {
        Ok(Seq::empty())
    } else {
        match step(m, tokens) {
            (Err(f), _) => Err(ArgumentFailure::Parse(f)),
            (Ok(d), rest) => {
                proof {
                    lemma_step_consumes(m, tokens);
                }
                match argument_of(d) {
                    Err(e) => Err(e),
                    Ok(a) => match arguments_of(m, rest) {
                        Ok(others) => Ok(seq![a] + others),
                        Err(e) => Err(e),
                    },
                }
            },
        }
    }
}

/// The arguments of a list, as mathematical values.
pub open spec fn argument_views(v: Seq<Argument>) -> Seq<ArgumentModel> {
    v.map_values(|a: Argument| a@)
}

/// The byte strings of a list of tokens.
pub open spec fn token_views(v: Seq<Vec<u8>>) -> Seq<Seq<u8>> {
    v.map_values(|t: Vec<u8>| t@)
}

impl Argument {
    /// The argument that a decoded token stands for.
    pub fn from_decoded(d: Decoded<Flag, Parser>) -> (r: Result<Argument, ArgumentError>)
        ensures
            match r {
                Ok(a) => argument_of(d@) == Ok::<ArgumentModel, ArgumentFailure>(a@),
                Err(e) => argument_of(d@) == Err::<ArgumentModel, ArgumentFailure>(e@),
            },
    {
        match d {
            Decoded::Flag(f) => Ok(Argument::from_flag(f)),
            Decoded::Value(p, value) => {
                let copy = slice_to_vec(value.as_slice());
                match Argument::from_value(p, value) {
                    Ok(a) => Ok(a),
                    Err(_) => Err(ArgumentError::InvalidZKeyword(copy)),
                }
            },
        }
    }
}

/// Decodes a command line, without the name of the program, into its
/// arguments.
pub fn parse_arguments(tokens: Vec<Vec<u8>>) -> (r: Result<Vec<Argument>, ArgumentError>)
    ensures
        match r {
            Ok(v) => arguments_of(ld_schema(), token_views(tokens@)) == Ok::<Seq<ArgumentModel>, ArgumentFailure>(
                argument_views(v@),
            ),
            Err(e) => arguments_of(ld_schema(), token_views(tokens@)) == Err::<
                Seq<ArgumentModel>,
                ArgumentFailure,
            >(e@),
        },
{
    let ghost m = ld_schema();
    let ghost all = token_views(tokens@);
    let schema = args();
    let mut iter = schema.map_iter(tokens);
    let mut out: Vec<Argument> = Vec::new();
    loop
        invariant
            iter.schema() == m,
            m == ld_schema(),
            all == token_views(tokens@),
            match arguments_of(m, iter.remaining()) {
                Ok(rest) => arguments_of(m, all) == Ok::<Seq<ArgumentModel>, ArgumentFailure>(
                    argument_views(out@) + rest,
                ),
                Err(e) => arguments_of(m, all) == Err::<Seq<ArgumentModel>, ArgumentFailure>(e),
            },
        decreases iter.remaining().len(),
    {
        let ghost before = out@;
        proof {
            if iter.remaining().len() > 0 {
                lemma_step_consumes(m, iter.remaining());
            }
        }
        let decoded = match iter.next() {
            None => {
                proof {
                    assert(argument_views(out@) + Seq::<ArgumentModel>::empty() =~= argument_views(out@));
                }
                return Ok(out);
            },
            Some(Err(e)) => {
                return Err(ArgumentError::Parse(e));
            },
            Some(Ok(d)) => d,
        };
        let argument = match Argument::from_decoded(decoded) {
            Ok(a) => a,
            Err(e) => {
                return Err(e);
            },
        };
        out.push(argument);
        proof {
            assert(argument_views(out@) =~= argument_views(before) + seq![argument@]);
            match arguments_of(m, iter.remaining()) {
                Ok(rest) => {
                    assert(argument_views(before) + (seq![argument@] + rest) =~= argument_views(out@) + rest);
                },
                Err(_) => {},
            }
        }
    }
}

} // verus!
