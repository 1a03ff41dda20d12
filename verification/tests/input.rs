use psvita_linker::compat_args::ParseArgumentError;
use psvita_linker::glob_pattern::ParseGlobPatternError;
use psvita_linker::input::InputFile;
use psvita_linker::input::InputLibrary;
use psvita_linker::input::LdInput;
use psvita_linker::input::LdInputError;
use psvita_linker::input::LinkSpecBuilder;
use psvita_linker::input::OutputOptions;
use psvita_linker::ld_compat_args::parse_arguments;
use psvita_linker::ld_compat_args::Argument;
use psvita_linker::ld_compat_args::ArgumentError;
use psvita_linker::ld_compat_args::Library;
use psvita_linker::ld_compat_args::ZKeyword;
use psvita_linker::version_script::ParseTrivialVersionScriptErrorKind;

fn tokens(list: &[&str]) -> Vec<Vec<u8>> {
    list.iter().map(|s| s.as_bytes().to_vec()).collect()
}

fn b(s: &str) -> Vec<u8> {
    s.as_bytes().to_vec()
}

#[test]
fn argument_precedence() {
    let line = tokens(&[
        "--as-needed",
        "-Bstatic",
        "--whole-archive",
        "foo.o",
        "--no-whole-archive",
        "-Bdynamic",
        "-o",
        "out.elf",
        "-shared",
    ]);
    assert_eq!(
        parse_arguments(line.clone()),
        Ok(vec![
            Argument::AsNeeded(true),
            Argument::BStatic,
            Argument::WholeArchive(true),
            Argument::InputFile(b("foo.o")),
            Argument::WholeArchive(false),
            Argument::BDynamic,
            Argument::Output(b("out.elf")),
            Argument::Shared,
        ])
    );
    let link = LdInput::from_args(line, None).unwrap();
    assert_eq!(
        link.input_files,
        vec![InputFile { path: b("foo.o"), gc_sections: false, whole_archive: true }]
    );
    assert_eq!(link.output_file, b("out.elf"));
    assert_eq!(link.output_options, OutputOptions::Shared { version_script: None });
    assert!(link.libraries.is_empty());
    assert!(link.library_paths.is_empty());
    assert!(!link.eh_frame_header);
    assert!(link.z_keywords.is_empty());
}

#[test]
fn scoped_flags_are_recorded_where_an_input_stands() {
    let link = LdInput::from_args(
        tokens(&[
            "a.o",
            "-la",
            "--gc-sections",
            "-Bstatic",
            "b.o",
            "-lb",
            "--whole-archive",
            "--no-gc-sections",
            "c.o",
            "-l:c.a",
            "-Bdynamic",
            "--no-whole-archive",
            "d.o",
            "-ld",
        ]),
        None,
    )
    .unwrap();
    assert_eq!(
        link.input_files,
        vec![
            InputFile { path: b("a.o"), gc_sections: false, whole_archive: false },
            InputFile { path: b("b.o"), gc_sections: true, whole_archive: false },
            InputFile { path: b("c.o"), gc_sections: false, whole_archive: true },
            InputFile { path: b("d.o"), gc_sections: false, whole_archive: false },
        ]
    );
    assert_eq!(
        link.libraries,
        vec![
            InputLibrary {
                lib: Library::Name(b("a")),
                only_static: false,
                gc_sections: false,
                whole_archive: false
            },
            InputLibrary {
                lib: Library::Name(b("b")),
                only_static: true,
                gc_sections: true,
                whole_archive: false
            },
            InputLibrary {
                lib: Library::File(b("c.a")),
                only_static: true,
                gc_sections: false,
                whole_archive: true
            },
            InputLibrary {
                lib: Library::Name(b("d")),
                only_static: false,
                gc_sections: false,
                whole_archive: false
            },
        ]
    );
}

#[test]
fn defaults_of_an_empty_command_line() {
    let link = LdInput::from_args(Vec::new(), None).unwrap();
    assert_eq!(link.output_file, b("a.out"));
    assert_eq!(link.output_options, OutputOptions::Executable { pic: false });
    assert_eq!(link.output_options, OutputOptions::default());
    assert!(link.input_files.is_empty());
    assert!(!link.is_exported(b"main"));
}

#[test]
fn kinds_of_output() {
    let link = LdInput::from_args(tokens(&["-pie"]), None).unwrap();
    assert_eq!(link.output_options, OutputOptions::Executable { pic: true });
    let link = LdInput::from_args(tokens(&["--pic-executable", "x.o"]), None).unwrap();
    assert_eq!(link.output_options, OutputOptions::Executable { pic: true });
    let link = LdInput::from_args(tokens(&["-Bshareable"]), None).unwrap();
    assert_eq!(link.output_options, OutputOptions::Shared { version_script: None });
}

#[test]
fn paths_keywords_and_frame_header() {
    let link = LdInput::from_args(
        tokens(&["-L/a", "--eh-frame-hdr", "-znoexecstack", "--library-path=/b", "-z", "noexecstack", "--no-as-needed"]),
        None,
    )
    .unwrap();
    assert_eq!(link.library_paths, vec![b("/a"), b("/b")]);
    assert!(link.eh_frame_header);
    assert_eq!(link.z_keywords, vec![ZKeyword::Noexecstack, ZKeyword::Noexecstack]);
}

#[test]
fn conflict_detection() {
    assert_eq!(
        LdInput::from_args(tokens(&["-o", "a", "x.o", "-o", "b"]), None),
        Err(LdInputError::DuplicateOutput(b("b")))
    );
    assert_eq!(
        LdInput::from_args(tokens(&["-oa", "--output=a"]), None),
        Err(LdInputError::DuplicateOutput(b("a")))
    );
    assert_eq!(
        LdInput::from_args(tokens(&["-pie", "-shared"]), None),
        Err(LdInputError::AmbiguousOutputKind { pie: true, shared: true, version_script: false })
    );
    assert_eq!(
        LdInput::from_args(tokens(&["-shared", "-pie"]), None),
        Err(LdInputError::AmbiguousOutputKind { pie: true, shared: true, version_script: false })
    );
}

#[test]
fn version_script_needs_a_shared_output() {
    let text = b("{ global: a; local: *; };");
    assert_eq!(
        LdInput::from_args(tokens(&["--version-script=v"]), Some(&text)),
        Err(LdInputError::AmbiguousOutputKind { pie: false, shared: false, version_script: true })
    );
    assert_eq!(
        LdInput::from_args(tokens(&["--version-script=v", "-pie"]), Some(&text)),
        Err(LdInputError::AmbiguousOutputKind { pie: true, shared: false, version_script: true })
    );
}

#[test]
fn version_script_of_a_shared_output() {
    let text = b("{ global: exported; sce*; local: *; };");
    let link = LdInput::from_args(tokens(&["-shared", "--version-script", "v.map", "x.o"]), Some(&text)).unwrap();
    match &link.output_options {
        OutputOptions::Shared { version_script: Some(vs) } => {
            assert!(vs.global.is_match(b"exported"));
            assert!(vs.local.is_match(b"anything"));
        }
        other => panic!("{:?}", other),
    }
    assert!(link.is_exported(b"exported"));
    assert!(link.is_exported(b"sceFoo"));
    assert!(!link.is_exported(b"hidden"));
}

#[test]
fn second_version_script() {
    let text = b("{ global: a; local: *; };");
    assert_eq!(
        LdInput::from_args(tokens(&["--version-script=v", "-shared", "--version-script=w"]), Some(&text)),
        Err(LdInputError::DuplicateVersionScript(b("w")))
    );
}

#[test]
fn version_script_that_is_not_at_hand() {
    assert_eq!(
        LdInput::from_args(tokens(&["-shared", "--version-script=v.map"]), None),
        Err(LdInputError::UnreadableVersionScript(b("v.map")))
    );
}

#[test]
fn malformed_version_script() {
    let text = b("{ global: a*b; local: *; };");
    match LdInput::from_args(tokens(&["-shared", "--version-script=v.map"]), Some(&text)) {
        Err(LdInputError::VersionScript(e)) => {
            assert_eq!(e.kind, ParseTrivialVersionScriptErrorKind::GlobError(ParseGlobPatternError));
        }
        other => panic!("{:?}", other),
    }
}

#[test]
fn undecodable_command_line() {
    assert_eq!(
        LdInput::from_args(tokens(&["-shared", "--nope"]), None),
        Err(LdInputError::Argument(ArgumentError::Parse(ParseArgumentError::UnrecognizedOption(b("--nope")))))
    );
    assert_eq!(
        LdInput::from_args(tokens(&["-zlazy"]), None),
        Err(LdInputError::Argument(ArgumentError::InvalidZKeyword(b("lazy"))))
    );
    assert_eq!(
        LdInput::from_args(tokens(&["-L"]), None),
        Err(LdInputError::Argument(ArgumentError::Parse(ParseArgumentError::MissingOptionValue(b("-L")))))
    );
}

#[test]
fn failed_step_leaves_the_builder_as_it_was() {
    let mut builder = LinkSpecBuilder::new();
    assert_eq!(builder.step(&Argument::Output(b("a")), None), Ok(()));
    assert_eq!(builder.step(&Argument::BStatic, None), Ok(()));
    assert_eq!(
        builder.step(&Argument::Output(b("b")), None),
        Err(LdInputError::DuplicateOutput(b("b")))
    );
    assert_eq!(builder.output_file, Some(b("a")));
    assert!(builder.only_static);
    assert_eq!(builder.step(&Argument::Library(Library::Name(b("m"))), None), Ok(()));
    let link = builder.finish().unwrap();
    assert_eq!(link.output_file, b("a"));
    assert_eq!(
        link.libraries,
        vec![InputLibrary {
            lib: Library::Name(b("m")),
            only_static: true,
            gc_sections: false,
            whole_archive: false
        }]
    );
}

#[test]
fn decoded_arguments_resolve_like_the_command_line() {
    let args = vec![Argument::Shared, Argument::InputFile(b("x.o")), Argument::AsNeeded(false)];
    let from_arguments = LdInput::from_arguments(&args, None).unwrap();
    let from_tokens = LdInput::from_args(tokens(&["-shared", "x.o", "--no-as-needed"]), None).unwrap();
    assert_eq!(from_arguments, from_tokens);
}
