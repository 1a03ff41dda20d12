//! The link description that a command line resolves to.

use vstd::prelude::*;
use vstd::slice::slice_to_vec;
use crate::ascii::ascii;
use crate::ascii::ascii_bytes;
use crate::ld_compat_args::argument_views;
use crate::ld_compat_args::arguments_of;
use crate::ld_compat_args::ld_schema;
use crate::ld_compat_args::parse_arguments;
use crate::ld_compat_args::token_views;
use crate::ld_compat_args::Argument;
use crate::ld_compat_args::ArgumentError;
use crate::ld_compat_args::ArgumentFailure;
use crate::ld_compat_args::ArgumentModel;
use crate::ld_compat_args::Library;
use crate::ld_compat_args::LibraryModel;
use crate::ld_compat_args::ZKeyword;
use crate::version_script::parse_script;
use crate::version_script::ErrorModel;
use crate::version_script::ParseTrivialVersionScriptError;
use crate::version_script::ScriptModel;
use crate::version_script::TrivialVersionScript;

verus! {

/// An object file or archive to link, with the scoped flags that held where
/// it stood on the command line.
#[derive(Debug, Clone, PartialEq, Eq)]
pub struct InputFile {
    pub path: Vec<u8>,
    pub gc_sections: bool,
    pub whole_archive: bool,
}

/// An input file, as a mathematical value.
pub struct InputFileModel {
    pub path: Seq<u8>,
    pub gc_sections: bool,
    pub whole_archive: bool,
}

impl View for InputFile {
    type V = InputFileModel;

    open spec fn view(&self) -> InputFileModel {
        InputFileModel { path: self.path@, gc_sections: self.gc_sections, whole_archive: self.whole_archive }
    }
}

/// A library to link, with the scoped flags that held where it stood on the
/// command line.
#[derive(Debug, Clone, PartialEq, Eq)]
pub struct InputLibrary {
    pub lib: Library,
    pub only_static: bool,
    pub gc_sections: bool,
    pub whole_archive: bool,
}

/// A library to link, as a mathematical value.
pub struct InputLibraryModel {
    pub lib: LibraryModel,
    pub only_static: bool,
    pub gc_sections: bool,
    pub whole_archive: bool,
}

impl View for InputLibrary {
    type V = InputLibraryModel;

    open spec fn view(&self) -> InputLibraryModel {
        InputLibraryModel {
            lib: self.lib@,
            only_static: self.only_static,
            gc_sections: self.gc_sections,
            whole_archive: self.whole_archive,
        }
    }
}

/// The kind of file to write.
#[derive(Debug, PartialEq)]
pub enum OutputOptions {
    Executable { pic: bool },
    Shared { version_script: Option<TrivialVersionScript> },
}

/// The kind of file to write, as a mathematical value.
pub enum OutputOptionsModel {
    Executable { pic: bool },
    Shared { version_script: Option<ScriptModel> },
}

/// A version script that may be absent, as a mathematical value.
pub open spec fn script_view(vs: Option<TrivialVersionScript>) -> Option<ScriptModel> {
    match vs {
        Some(s) => Some(s@),
        None => None,
    }
}

impl View for OutputOptions {
    type V = OutputOptionsModel;

    open spec fn view(&self) -> OutputOptionsModel {
        match *self {
            OutputOptions::Executable { pic } => OutputOptionsModel::Executable { pic },
            OutputOptions::Shared { version_script } => OutputOptionsModel::Shared {
                version_script: script_view(version_script),
            },
        }
    }
}

impl Default for OutputOptions {
    /// An executable at a fixed address.
    fn default() -> (r: OutputOptions)
        ensures
            r == (OutputOptions::Executable { pic: false }),
    {
        OutputOptions::Executable { pic: false }
    }
}

/// The resolved description of a link.
#[derive(Debug, PartialEq)]
pub struct LdInput {
    pub input_files: Vec<InputFile>,
    pub library_paths: Vec<Vec<u8>>,
    pub libraries: Vec<InputLibrary>,
    pub output_file: Vec<u8>,
    pub output_options: OutputOptions,
    pub eh_frame_header: bool,
    pub z_keywords: Vec<ZKeyword>,
}

/// The resolved description of a link, as a mathematical value.
pub struct LdInputModel {
    pub input_files: Seq<InputFileModel>,
    pub library_paths: Seq<Seq<u8>>,
    pub libraries: Seq<InputLibraryModel>,
    pub output_file: Seq<u8>,
    pub output_options: OutputOptionsModel,
    pub eh_frame_header: bool,
    pub z_keywords: Seq<ZKeyword>,
}

impl View for LdInput {
    type V = LdInputModel;

    open spec fn view(&self) -> LdInputModel {
        LdInputModel {
            input_files: self.input_files@.map_values(|f: InputFile| f@),
            library_paths: self.library_paths@.map_values(|p: Vec<u8>| p@),
            libraries: self.libraries@.map_values(|l: InputLibrary| l@),
            output_file: self.output_file@,
            output_options: self.output_options@,
            eh_frame_header: self.eh_frame_header,
            z_keywords: self.z_keywords@,
        }
    }
}

/// A command line that resolves to no link description.
#[derive(Debug, Clone, PartialEq, Eq)]
pub enum LdInputError {
    /// The command line cannot be decoded.
    Argument(ArgumentError),
    /// The output file is named a second time; the second name is given.
    DuplicateOutput(Vec<u8>),
    /// A second version script is named; its path is given.
    DuplicateVersionScript(Vec<u8>),
    /// The text of the version script at this path is not at hand.
    UnreadableVersionScript(Vec<u8>),
    /// The version script is malformed.
    VersionScript(ParseTrivialVersionScriptError),
    /// The options ask for no kind of output, or for more than one.
    AmbiguousOutputKind { pie: bool, shared: bool, version_script: bool },
}

/// A command line that resolves to no link description, as a mathematical
/// value.
pub enum LdInputFailure {
    Argument(ArgumentFailure),
    DuplicateOutput(Seq<u8>),
    DuplicateVersionScript(Seq<u8>),
    UnreadableVersionScript(Seq<u8>),
    VersionScript(ErrorModel),
    AmbiguousOutputKind { pie: bool, shared: bool, version_script: bool },
}

impl View for LdInputError {
    type V = LdInputFailure;

    open spec fn view(&self) -> LdInputFailure {
        match *self {
            LdInputError::Argument(e) => LdInputFailure::Argument(e@),
            LdInputError::DuplicateOutput(p) => LdInputFailure::DuplicateOutput(p@),
            LdInputError::DuplicateVersionScript(p) => LdInputFailure::DuplicateVersionScript(p@),
            LdInputError::UnreadableVersionScript(p) => LdInputFailure::UnreadableVersionScript(p@),
            LdInputError::VersionScript(e) => LdInputFailure::VersionScript(e@),
            LdInputError::AmbiguousOutputKind { pie, shared, version_script } => LdInputFailure::AmbiguousOutputKind {
                pie,
                shared,
                version_script,
            },
        }
    }
}

/// What is known of the link after some of the arguments: the inputs so
/// far, the scoped flags as they stand, and the options that may be given
/// once.
#[derive(Debug)]
pub struct LinkSpecBuilder {
    pub input_files: Vec<InputFile>,
    pub library_paths: Vec<Vec<u8>>,
    pub libraries: Vec<InputLibrary>,
    pub only_static: bool,
    pub gc_sections: bool,
    pub whole_archive: bool,
    pub output_file: Option<Vec<u8>>,
    pub version_script: Option<TrivialVersionScript>,
    pub pie: bool,
    pub shared: bool,
    pub eh_frame_header: bool,
    pub z_keywords: Vec<ZKeyword>,
}

/// The state of a builder, as a mathematical value.
pub struct BuilderModel {
    pub input_files: Seq<InputFileModel>,
    pub library_paths: Seq<Seq<u8>>,
    pub libraries: Seq<InputLibraryModel>,
    pub only_static: bool,
    pub gc_sections: bool,
    pub whole_archive: bool,
    pub output_file: Option<Seq<u8>>,
    pub version_script: Option<ScriptModel>,
    pub pie: bool,
    pub shared: bool,
    pub eh_frame_header: bool,
    pub z_keywords: Seq<ZKeyword>,
}

impl View for LinkSpecBuilder {
    type V = BuilderModel;

    open spec fn view(&self) -> BuilderModel {
        BuilderModel {
            input_files: self.input_files@.map_values(|f: InputFile| f@),
            library_paths: self.library_paths@.map_values(|p: Vec<u8>| p@),
            libraries: self.libraries@.map_values(|l: InputLibrary| l@),
            only_static: self.only_static,
            gc_sections: self.gc_sections,
            whole_archive: self.whole_archive,
            output_file: match self.output_file {
                Some(p) => Some(p@),
                None => None,
            },
            version_script: script_view(self.version_script),
            pie: self.pie,
            shared: self.shared,
            eh_frame_header: self.eh_frame_header,
            z_keywords: self.z_keywords@,
        }
    }
}

/// The state before any argument: nothing to link, and every flag off.
pub open spec fn initial() -> BuilderModel {
    BuilderModel {
        input_files: Seq::empty(),
        library_paths: Seq::empty(),
        libraries: Seq::empty(),
        only_static: false,
        gc_sections: false,
        whole_archive: false,
        output_file: None,
        version_script: None,
        pie: false,
        shared: false,
        eh_frame_header: false,
        z_keywords: Seq::empty(),
    }
}

/// The state after one more argument. `text` is the text of the version
/// script that the command line names, where it is at hand.
///
/// A scoped flag changes what later inputs record and leaves earlier ones
/// alone. The output file and the version script may be given once.
pub open spec fn apply(b: BuilderModel, arg: ArgumentModel, text: Option<Seq<u8>>) -> Result<
    BuilderModel,
    LdInputFailure,
> {
    match arg {
        ArgumentModel::AsNeeded(_) => Ok(b),
        ArgumentModel::BDynamic => Ok(BuilderModel { only_static: false, ..b }),
        ArgumentModel::BStatic => Ok(BuilderModel { only_static: true, ..b }),
        ArgumentModel::EhFrameHdr => Ok(BuilderModel { eh_frame_header: true, ..b }),
        ArgumentModel::GcSections(p) => Ok(BuilderModel { gc_sections: p, ..b }),
        ArgumentModel::InputFile(path) => Ok(
            BuilderModel {
                input_files: b.input_files.push(
                    InputFileModel { path, gc_sections: b.gc_sections, whole_archive: b.whole_archive },
                ),
                ..b
            },
        ),
        ArgumentModel::Library(lib) => Ok(
            BuilderModel {
                libraries: b.libraries.push(
                    InputLibraryModel {
                        lib,
                        only_static: b.only_static,
                        gc_sections: b.gc_sections,
                        whole_archive: b.whole_archive,
                    },
                ),
                ..b
            },
        ),
        ArgumentModel::LibraryPath(p) => Ok(BuilderModel { library_paths: b.library_paths.push(p), ..b }),
        ArgumentModel::Output(o) => if b.output_file is Some {
            Err(LdInputFailure::DuplicateOutput(o))
        } else {
            Ok(BuilderModel { output_file: Some(o), ..b })
        },
        ArgumentModel::PicExecutable => Ok(BuilderModel { pie: true, ..b }),
        ArgumentModel::Shared => Ok(BuilderModel { shared: true, ..b }),
        ArgumentModel::VersionScript(path) => if b.version_script is Some {
            Err(LdInputFailure::DuplicateVersionScript(path))
        } else {
            match text {
                None => Err(LdInputFailure::UnreadableVersionScript(path)),
                Some(t) => match parse_script(t) {
                    Err(e) => Err(LdInputFailure::VersionScript(e)),
                    Ok(vs) => Ok(BuilderModel { version_script: Some(vs), ..b }),
                },
            }
        },
        ArgumentModel::WholeArchive(w) => Ok(BuilderModel { whole_archive: w, ..b }),
        ArgumentModel::Z(z) => Ok(BuilderModel { z_keywords: b.z_keywords.push(z), ..b }),
    }
}

/// The state after all of `args`, taken from left to right up to the first
/// that fails.
pub open spec fn fold(b: BuilderModel, args: Seq<ArgumentModel>, text: Option<Seq<u8>>) -> Result<
    BuilderModel,
    LdInputFailure,
>
    decreases args.len(),
{
    if args.len() == 0 {
        Ok(b)
    } else {
        match apply(b, args[0], text) {
            Err(e) => Err(e),
            Ok(next) => fold(next, args.drop_first(), text),
        }
    }
}

/// The link description that a final state stands for. The kind of output
/// follows from `-pie`, `-shared` and the version script; the output file is
/// `a.out` unless it was named.
pub open spec fn resolve(b: BuilderModel) -> Result<LdInputModel, LdInputFailure> {
    let output_file = match b.output_file {
        Some(p) => p,
        None => ascii("a.out"@),
    };
    if !b.shared && b.version_script is None {
        Ok(
            LdInputModel {
                input_files: b.input_files,
                library_paths: b.library_paths,
                libraries: b.libraries,
                output_file,
                output_options: OutputOptionsModel::Executable { pic: b.pie },
                eh_frame_header: b.eh_frame_header,
                z_keywords: b.z_keywords,
            },
        )
    } else if !b.pie && b.shared {
        Ok(
            LdInputModel {
                input_files: b.input_files,
                library_paths: b.library_paths,
                libraries: b.libraries,
                output_file,
                output_options: OutputOptionsModel::Shared { version_script: b.version_script },
                eh_frame_header: b.eh_frame_header,
                z_keywords: b.z_keywords,
            },
        )
    } else {
        Err(
            LdInputFailure::AmbiguousOutputKind {
                pie: b.pie,
                shared: b.shared,
                version_script: b.version_script is Some,
            },
        )
    }
}

/// The link description that a list of arguments resolves to.
pub open spec fn link_of(args: Seq<ArgumentModel>, text: Option<Seq<u8>>) -> Result<LdInputModel, LdInputFailure> {
    match fold(initial(), args, text) {
        Err(e) => Err(e),
        Ok(b) => resolve(b),
    }
}

/// The link description that a command line resolves to.
pub open spec fn link_of_tokens(tokens: Seq<Seq<u8>>, text: Option<Seq<u8>>) -> Result<
    LdInputModel,
    LdInputFailure,
> {
    match arguments_of(ld_schema(), tokens) {
        Err(e) => Err(LdInputFailure::Argument(e)),
        Ok(args) => link_of(args, text),
    }
}

/// The text behind an optional list of bytes.
pub open spec fn text_view(text: Option<&Vec<u8>>) -> Option<Seq<u8>> {
    match text {
        Some(t) => Some(t@),
        None => None,
    }
}

fn copy_library(lib: &Library) -> (r: Library)
    ensures
        r@ == lib@,
{
    match lib {
        Library::Name(n) => Library::Name(slice_to_vec(n.as_slice())),
        Library::File(f) => Library::File(slice_to_vec(f.as_slice())),
    }
}

impl LinkSpecBuilder {
    /// The state before any argument.
    pub fn new() -> (r: LinkSpecBuilder)
        ensures
            r@ == initial(),
    {
        let r = LinkSpecBuilder {
            input_files: Vec::new(),
            library_paths: Vec::new(),
            libraries: Vec::new(),
            only_static: false,
            gc_sections: false,
            whole_archive: false,
            output_file: None,
            version_script: None,
            pie: false,
            shared: false,
            eh_frame_header: false,
            z_keywords: Vec::new(),
        };
        proof {
            assert(r@.input_files =~= Seq::empty());
            assert(r@.library_paths =~= Seq::empty());
            assert(r@.libraries =~= Seq::empty());
        }
        r
    }

    /// Takes one more argument into account. `text` is the text of the
    /// version script that the command line names, where it is at hand. On
    /// failure the state is left as it was.
    pub fn step(&mut self, arg: &Argument, text: Option<&Vec<u8>>) -> (r: Result<(), LdInputError>)
        ensures
            match r {
                Ok(_) => apply(old(self)@, arg@, text_view(text)) == Ok::<BuilderModel, LdInputFailure>(
                    final(self)@,
                ),
                Err(e) => apply(old(self)@, arg@, text_view(text)) == Err::<BuilderModel, LdInputFailure>(e@)
                    && final(self)@ == old(self)@,
            },
    {
        let ghost before = self@;
        match arg {
            Argument::AsNeeded(_) => {},
            Argument::BDynamic => {
                self.only_static = false;
            },
            Argument::BStatic => {
                self.only_static = true;
            },
            Argument::EhFrameHdr => {
                self.eh_frame_header = true;
            },
            Argument::GcSections(p) => {
                self.gc_sections = *p;
            },
            Argument::InputFile(path) => {
                let file = InputFile {
                    path: slice_to_vec(path.as_slice()),
                    gc_sections: self.gc_sections,
                    whole_archive: self.whole_archive,
                };
                self.input_files.push(file);
                proof {
                    assert(self@.input_files =~= before.input_files.push(file@));
                }
            },
            Argument::Library(lib) => {
                let library = InputLibrary {
                    lib: copy_library(lib),
                    only_static: self.only_static,
                    gc_sections: self.gc_sections,
                    whole_archive: self.whole_archive,
                };
                self.libraries.push(library);
                proof {
                    assert(self@.libraries =~= before.libraries.push(library@));
                }
            },
            Argument::LibraryPath(p) => {
                let path = slice_to_vec(p.as_slice());
                self.library_paths.push(path);
                proof {
                    assert(self@.library_paths =~= before.library_paths.push(p@));
                }
            },
            Argument::Output(o) => {
                if self.output_file.is_some() {
                    return Err(LdInputError::DuplicateOutput(slice_to_vec(o.as_slice())));
                }
                self.output_file = Some(slice_to_vec(o.as_slice()));
            },
            Argument::PicExecutable => {
                self.pie = true;
            },
            Argument::Shared => {
                self.shared = true;
            },
            Argument::VersionScript(path) => {
                if self.version_script.is_some() {
                    return Err(LdInputError::DuplicateVersionScript(slice_to_vec(path.as_slice())));
                }
                let text = match text {
                    Some(t) => t,
                    None => {
                        return Err(LdInputError::UnreadableVersionScript(slice_to_vec(path.as_slice())));
                    },
                };
                match TrivialVersionScript::from_str(text.as_slice()) {
                    Ok(vs) => {
                        self.version_script = Some(vs);
                    },
                    Err(e) => {
                        return Err(LdInputError::VersionScript(e));
                    },
                }
            },
            Argument::WholeArchive(w) => {
                self.whole_archive = *w;
            },
            Argument::Z(z) => {
                self.z_keywords.push(*z);
            },
        }
        Ok(())
    }

    /// Resolves the final state to a link description.
    pub fn finish(self) -> (r: Result<LdInput, LdInputError>)
        ensures
            match r {
                Ok(l) => resolve(self@) == Ok::<LdInputModel, LdInputFailure>(l@),
                Err(e) => resolve(self@) == Err::<LdInputModel, LdInputFailure>(e@),
            },
    {
        let pie = self.pie;
        let shared = self.shared;
        let output_options = match (pie, shared, self.version_script) {
            (pic, false, None) => OutputOptions::Executable { pic },
            (false, true, vs) => OutputOptions::Shared { version_script: vs },
            (_, _, vs) => {
                return Err(
                    LdInputError::AmbiguousOutputKind { pie, shared, version_script: vs.is_some() },
                );
            },
        };
        let output_file = match self.output_file {
            Some(p) => p,
            None => ascii_bytes("a.out"),
        };
        Ok(
            LdInput {
                input_files: self.input_files,
                library_paths: self.library_paths,
                libraries: self.libraries,
                output_file,
                output_options,
                eh_frame_header: self.eh_frame_header,
                z_keywords: self.z_keywords,
            },
        )
    }
}

impl LdInput {
    /// Resolves decoded arguments to a link description. `text` is the text
    /// of the version script that the arguments name, where it is at hand.
    pub fn from_arguments(args: &Vec<Argument>, text: Option<&Vec<u8>>) -> (r: Result<LdInput, LdInputError>)
        ensures
            match r {
                Ok(l) => link_of(argument_views(args@), text_view(text)) == Ok::<LdInputModel, LdInputFailure>(
                    l@,
                ),
                Err(e) => link_of(argument_views(args@), text_view(text)) == Err::<
                    LdInputModel,
                    LdInputFailure,
                >(e@),
            },
    {
        let ghost all = argument_views(args@);
        let ghost t = text_view(text);
        let mut builder = LinkSpecBuilder::new();
        let mut i: usize = 0;
        proof {
            assert(all.skip(0) =~= all);
        }
        while i < args.len()
            invariant
                i <= args@.len(),
                all == argument_views(args@),
                t == text_view(text),
                fold(initial(), all, t) == fold(builder@, all.skip(i as int), t),
            decreases args@.len() - i,
        {
            proof {
                assert(all.skip(i as int)[0] == args@[i as int]@);
                assert(all.skip(i as int).drop_first() =~= all.skip(i + 1));
            }
            match builder.step(&args[i], text) {
                Ok(_) => {},
                Err(e) => {
                    return Err(e);
                },
            }
            i += 1;
        }
        proof {
            assert(all.skip(i as int).len() == 0);
        }
        builder.finish()
    }

    /// Resolves a command line, without the name of the program, to a link
    /// description. `text` is the text of the version script that the
    /// command line names, where it is at hand.
    pub fn from_args(tokens: Vec<Vec<u8>>, text: Option<&Vec<u8>>) -> (r: Result<LdInput, LdInputError>)
        ensures
            match r {
                Ok(l) => link_of_tokens(token_views(tokens@), text_view(text)) == Ok::<
                    LdInputModel,
                    LdInputFailure,
                >(l@),
                Err(e) => link_of_tokens(token_views(tokens@), text_view(text)) == Err::<
                    LdInputModel,
                    LdInputFailure,
                >(e@),
            },
    {
        match parse_arguments(tokens) {
            Err(e) => Err(LdInputError::Argument(e)),
            Ok(args) => LdInput::from_arguments(&args, text),
        }
    }

    /// Tells whether the link exports `symbol`: it does where the output is
    /// shared and has a version script whose global patterns match it.
    pub fn is_exported(&self, symbol: &[u8]) -> (r: bool)
        ensures
            r == match self.output_options {
                OutputOptions::Shared { version_script: Some(vs) } => vs.global.matches(symbol@),
                _ => false,
            },
    {
        match &self.output_options {
            OutputOptions::Shared { version_script: Some(vs) } => vs.is_exported(symbol),
            _ => false,
        }
    }
}

} // verus!
