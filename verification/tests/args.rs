use psvita_linker::compat_args::flag::DuplicateFlagError;
use psvita_linker::compat_args::flag::Flags;
use psvita_linker::compat_args::long::DuplicateLongError;
use psvita_linker::compat_args::long::Longs;
use psvita_linker::compat_args::short::DuplicateShortError;
use psvita_linker::compat_args::short::MissingValueError;
use psvita_linker::compat_args::short::Shorts;
use psvita_linker::compat_args::table::hash_name;
use psvita_linker::compat_args::table::Table;
use psvita_linker::compat_args::Args;
use psvita_linker::compat_args::Decoded;
use psvita_linker::compat_args::DuplicateOptionError;
use psvita_linker::compat_args::ParseArgumentError;
use psvita_linker::compat_args::Tokens;
use psvita_linker::ld_compat_args::args;
use psvita_linker::ld_compat_args::parse_arguments;
use psvita_linker::ld_compat_args::Argument;
use psvita_linker::ld_compat_args::ArgumentError;
use psvita_linker::ld_compat_args::Flag;
use psvita_linker::ld_compat_args::Library;
use psvita_linker::ld_compat_args::ParseZKeywordError;
use psvita_linker::ld_compat_args::Parser;
use psvita_linker::ld_compat_args::ZKeyword;

fn tokens(list: &[&str]) -> Vec<Vec<u8>> {
    list.iter().map(|s| s.as_bytes().to_vec()).collect()
}

fn b(s: &str) -> Vec<u8> {
    s.as_bytes().to_vec()
}

#[test]
fn parse_args() {
    let input_args = ["--version-script=/tmp/rustchCaNJl/list", "/home/zeta0/rust-psvita/examples/target/armv7a-sony-psvita/debug/deps/psvita_dylib_example.420ogeym4143ooxn.rcgu.o", "/home/zeta0/rust-psvita/examples/target/armv7a-sony-psvita/debug/deps/psvita_dylib_example.2jdmp6cbjz7q76p1.rcgu.o", "--as-needed", "-L", "/home/zeta0/rust-psvita/examples/target/armv7a-sony-psvita/debug/deps", "-L", "/home/zeta0/rust-psvita/examples/target/debug/deps", "-L", "/home/zeta0/.vitasdk/arm-vita-eabi/lib", "-L", "/home/zeta0/.rustup/toolchains/nightly-x86_64-unknown-linux-gnu/lib/rustlib/armv7a-sony-psvita/lib", "-Bstatic", "--whole-archive", "/home/zeta0/rust-psvita/examples/target/armv7a-sony-psvita/debug/deps/librustc_std_workspace_core-d03d8b57bcedbd94.rlib", "--no-whole-archive", "--whole-archive", "/home/zeta0/rust-psvita/examples/target/armv7a-sony-psvita/debug/deps/libcore-82cbd9ce51306110.rlib", "--no-whole-archive", "/home/zeta0/rust-psvita/examples/target/armv7a-sony-psvita/debug/deps/libcompiler_builtins-6d33f699b0f7befc.rlib", "-Bdynamic", "--eh-frame-hdr", "-znoexecstack", "-L", "/home/zeta0/.rustup/toolchains/nightly-x86_64-unknown-linux-gnu/lib/rustlib/armv7a-sony-psvita/lib", "-o", "/home/zeta0/rust-psvita/examples/target/armv7a-sony-psvita/debug/deps/libpsvita_dylib_example.vso", "-shared"];
    let args: Vec<_> = args()
        .map_iter(input_args.iter().map(|&s| s.as_bytes().to_vec()).collect())
        .collect()
        .unwrap();
    println!("{:#?}", args);
    assert_eq!(args.len(), 22);
    assert_eq!(args[0], Decoded::Value(Parser::VersionScript, b("/tmp/rustchCaNJl/list")));
    assert_eq!(args[3], Decoded::Flag(Flag::AsNeeded(true)));
    assert_eq!(args[17], Decoded::Flag(Flag::EhFrameHdr));
    assert_eq!(args[18], Decoded::Value(Parser::Z, b("noexecstack")));
    assert_eq!(args[21], Decoded::Flag(Flag::Shared));
}

#[test]
fn lib_parse_args() {
    let input_args = ["psvita-linker", "--version-script=/tmp/rustchCaNJl/list", "/home/zeta0/rust-psvita/examples/target/armv7a-sony-psvita/debug/deps/psvita_dylib_example.420ogeym4143ooxn.rcgu.o", "/home/zeta0/rust-psvita/examples/target/armv7a-sony-psvita/debug/deps/psvita_dylib_example.2jdmp6cbjz7q76p1.rcgu.o", "--as-needed", "-L", "/home/zeta0/rust-psvita/examples/target/armv7a-sony-psvita/debug/deps", "-L", "/home/zeta0/rust-psvita/examples/target/debug/deps", "-L", "/home/zeta0/.vitasdk/arm-vita-eabi/lib", "-L", "/home/zeta0/.rustup/toolchains/nightly-x86_64-unknown-linux-gnu/lib/rustlib/armv7a-sony-psvita/lib", "-Bstatic", "--whole-archive", "/home/zeta0/rust-psvita/examples/target/armv7a-sony-psvita/debug/deps/librustc_std_workspace_core-d03d8b57bcedbd94.rlib", "--no-whole-archive", "--whole-archive", "/home/zeta0/rust-psvita/examples/target/armv7a-sony-psvita/debug/deps/libcore-82cbd9ce51306110.rlib", "--no-whole-archive", "/home/zeta0/rust-psvita/examples/target/armv7a-sony-psvita/debug/deps/libcompiler_builtins-6d33f699b0f7befc.rlib", "-Bdynamic", "--eh-frame-hdr", "-znoexecstack", "-L", "/home/zeta0/.rustup/toolchains/nightly-x86_64-unknown-linux-gnu/lib/rustlib/armv7a-sony-psvita/lib", "-o", "/home/zeta0/rust-psvita/examples/target/armv7a-sony-psvita/debug/deps/libpsvita_dylib_example.vso", "-shared"];
    let args: Vec<_> = parse_arguments(input_args.iter().map(|&s| s.as_bytes().to_vec()).collect()).unwrap();
    println!("{:#?}", args);
    assert_eq!(args.len(), 23);
    assert_eq!(args[0], Argument::InputFile(b("psvita-linker")));
    assert_eq!(args[1], Argument::VersionScript(b("/tmp/rustchCaNJl/list")));
    assert_eq!(args[4], Argument::AsNeeded(true));
    assert_eq!(
        args[5],
        Argument::LibraryPath(b("/home/zeta0/rust-psvita/examples/target/armv7a-sony-psvita/debug/deps"))
    );
    assert_eq!(args[9], Argument::BStatic);
    assert_eq!(args[10], Argument::WholeArchive(true));
    assert_eq!(args[12], Argument::WholeArchive(false));
    assert_eq!(args[17], Argument::BDynamic);
    assert_eq!(args[18], Argument::EhFrameHdr);
    assert_eq!(args[19], Argument::Z(ZKeyword::Noexecstack));
    assert_eq!(args[22], Argument::Shared);
}

#[test]
fn every_spelling_of_every_flag() {
    let cases: Vec<(&str, Argument)> = vec![
        ("--as-needed", Argument::AsNeeded(true)),
        ("--no-as-needed", Argument::AsNeeded(false)),
        ("-Bdynamic", Argument::BDynamic),
        ("-dy", Argument::BDynamic),
        ("-call_shared", Argument::BDynamic),
        ("-Bstatic", Argument::BStatic),
        ("-dn", Argument::BStatic),
        ("-non_shared", Argument::BStatic),
        ("-static", Argument::BStatic),
        ("--eh-frame-hdr", Argument::EhFrameHdr),
        ("--gc-sections", Argument::GcSections(true)),
        ("--no-gc-sections", Argument::GcSections(false)),
        ("-pie", Argument::PicExecutable),
        ("--pic-executable", Argument::PicExecutable),
        ("-shared", Argument::Shared),
        ("-Bshareable", Argument::Shared),
        ("--whole-archive", Argument::WholeArchive(true)),
        ("--no-whole-archive", Argument::WholeArchive(false)),
    ];
    for (text, expect) in cases {
        assert_eq!(parse_arguments(tokens(&[text])), Ok(vec![expect]), "{}", text);
    }
}

#[test]
fn options_take_their_value_from_the_token_or_from_the_next() {
    assert_eq!(
        parse_arguments(tokens(&["-lfoo", "-l", "bar", "--library=baz", "--library", "qux"])),
        Ok(vec![
            Argument::Library(Library::Name(b("foo"))),
            Argument::Library(Library::Name(b("bar"))),
            Argument::Library(Library::Name(b("baz"))),
            Argument::Library(Library::Name(b("qux"))),
        ])
    );
    assert_eq!(
        parse_arguments(tokens(&["-L/usr/lib", "-L", "/lib", "--library-path=/a", "--library-path", "/b"])),
        Ok(vec![
            Argument::LibraryPath(b("/usr/lib")),
            Argument::LibraryPath(b("/lib")),
            Argument::LibraryPath(b("/a")),
            Argument::LibraryPath(b("/b")),
        ])
    );
    assert_eq!(
        parse_arguments(tokens(&["-oa.elf", "--output=b.elf"])),
        Ok(vec![Argument::Output(b("a.elf")), Argument::Output(b("b.elf"))])
    );
    assert_eq!(
        parse_arguments(tokens(&["--version-script", "v.map", "--version-script=w.map"])),
        Ok(vec![Argument::VersionScript(b("v.map")), Argument::VersionScript(b("w.map"))])
    );
    assert_eq!(
        parse_arguments(tokens(&["-z", "noexecstack", "-znoexecstack"])),
        Ok(vec![Argument::Z(ZKeyword::Noexecstack), Argument::Z(ZKeyword::Noexecstack)])
    );
}

#[test]
fn library_name_parsing() {
    assert_eq!(
        parse_arguments(tokens(&["-l:libfoo.a"])),
        Ok(vec![Argument::Library(Library::File(b("libfoo.a")))])
    );
    assert_eq!(parse_arguments(tokens(&["-lfoo"])), Ok(vec![Argument::Library(Library::Name(b("foo")))]));
    assert_eq!(Library::from(b(":libfoo.a")), Library::File(b("libfoo.a")));
    assert_eq!(Library::from(b("foo")), Library::Name(b("foo")));
    assert_eq!(Library::from(b(":")), Library::File(b("")));
    assert_eq!(Library::from(b("")), Library::Name(b("")));
    assert_eq!(Library::from(b("a:b")), Library::Name(b("a:b")));
}

#[test]
fn value_of_an_option_may_look_like_an_option() {
    assert_eq!(parse_arguments(tokens(&["-o", "-shared"])), Ok(vec![Argument::Output(b("-shared"))]));
    assert_eq!(
        parse_arguments(tokens(&["--output", "--as-needed", "-pie"])),
        Ok(vec![Argument::Output(b("--as-needed")), Argument::PicExecutable])
    );
    assert_eq!(parse_arguments(tokens(&["--output="])), Ok(vec![Argument::Output(b(""))]));
    assert_eq!(parse_arguments(tokens(&["--output=a=b"])), Ok(vec![Argument::Output(b("a=b"))]));
}

#[test]
fn flag_wins_over_a_short_option_with_the_same_first_bytes() {
    let mut schema: Args<u8, u8> = Args::new();
    schema.set_plain_handler(0);
    schema.register_short(*b"-s", 1).unwrap();
    schema.register_flag(b("-shared"), 2).unwrap();
    schema.register_long(b("-s"), 3).unwrap();
    let got = schema.map_iter(tokens(&["-shared", "-static", "-s", "x", "plain"])).collect();
    assert_eq!(
        got,
        Ok(vec![
            Decoded::Flag(2),
            Decoded::Value(1, b("tatic")),
            Decoded::Value(1, b("x")),
            Decoded::Value(0, b("plain")),
        ])
    );
}

#[test]
fn short_option_wins_over_a_long_option() {
    let mut schema: Args<u8, u8> = Args::new();
    schema.register_long(b("-ab"), 7).unwrap();
    schema.register_short(*b"-a", 8).unwrap();
    let got = schema.map_iter(tokens(&["-ab=c"])).collect();
    assert_eq!(got, Ok(vec![Decoded::Value(8, b("b=c"))]));
}

#[test]
fn plain_tokens_are_input_files() {
    assert_eq!(
        parse_arguments(tokens(&["foo.o", "dir/bar.a", "a=b", ""])),
        Ok(vec![
            Argument::InputFile(b("foo.o")),
            Argument::InputFile(b("dir/bar.a")),
            Argument::InputFile(b("a=b")),
            Argument::InputFile(b("")),
        ])
    );
}

#[test]
fn unrecognized_option_stops_the_decoding() {
    assert_eq!(
        parse_arguments(tokens(&["foo.o", "--bogus", "bar.o"])),
        Err(ArgumentError::Parse(ParseArgumentError::UnrecognizedOption(b("--bogus"))))
    );
    assert_eq!(
        parse_arguments(tokens(&["-"])),
        Err(ArgumentError::Parse(ParseArgumentError::UnrecognizedOption(b("-"))))
    );
    assert_eq!(
        parse_arguments(tokens(&["--bogus=1"])),
        Err(ArgumentError::Parse(ParseArgumentError::UnrecognizedOption(b("--bogus=1"))))
    );
    assert_eq!(
        parse_arguments(tokens(&["-shared=1"])),
        Err(ArgumentError::Parse(ParseArgumentError::UnrecognizedOption(b("-shared=1"))))
    );
}

#[test]
fn option_without_its_value() {
    assert_eq!(
        parse_arguments(tokens(&["foo.o", "-o"])),
        Err(ArgumentError::Parse(ParseArgumentError::MissingOptionValue(b("-o"))))
    );
    assert_eq!(
        parse_arguments(tokens(&["--version-script"])),
        Err(ArgumentError::Parse(ParseArgumentError::MissingOptionValue(b("--version-script"))))
    );
}

#[test]
fn unknown_z_keyword() {
    assert_eq!(
        parse_arguments(tokens(&["-zrelro", "--bogus"])),
        Err(ArgumentError::InvalidZKeyword(b("relro")))
    );
    assert_eq!(ZKeyword::from_str(b"noexecstack"), Ok(ZKeyword::Noexecstack));
    assert_eq!(ZKeyword::from_str(b"noexecstac"), Err(ParseZKeywordError::Unknown));
    assert_eq!(ZKeyword::from_str(b""), Err(ParseZKeywordError::Unknown));
    assert_eq!(ParseZKeywordError::Unknown.message(), "unknown -z keyword");
    assert_eq!(Argument::from_value(Parser::Z, b("x")), Err(ParseZKeywordError::Unknown));
    assert_eq!(Argument::from_flag(Flag::GcSections(false)), Argument::GcSections(false));
}

#[test]
fn plain_token_without_a_plain_handler() {
    let mut schema: Args<u8, u8> = Args::new();
    schema.register_flag(b("-x"), 1).unwrap();
    let got = schema.map_iter(tokens(&["-x", "file"])).collect();
    assert_eq!(got, Err(ParseArgumentError::UnexpectedArgument(b("file"))));
}

#[test]
fn arguments_come_one_by_one() {
    let schema = args();
    let mut iter = schema.map_iter(tokens(&["-pie", "x.o", "--what"]));
    assert_eq!(iter.next(), Some(Ok(Decoded::Flag(Flag::PicExecutable))));
    assert_eq!(iter.next(), Some(Ok(Decoded::Value(Parser::InputFile, b("x.o")))));
    assert_eq!(iter.next(), Some(Err(ParseArgumentError::UnrecognizedOption(b("--what")))));
    assert_eq!(iter.next(), None);
    assert_eq!(iter.next(), None);
}

#[test]
fn registering_a_name_twice_fails() {
    let mut flags: Flags<u8> = Flags::new();
    assert_eq!(flags.try_insert(b("-a"), 1), Ok(()));
    assert_eq!(flags.try_insert(b("-b"), 2), Ok(()));
    assert_eq!(flags.try_insert(b("-a"), 3), Err(DuplicateFlagError { flag: b("-a") }));
    flags.insert(b("-c"), 4);
    let mut stream = Tokens::new(tokens(&["-a", "-c", "-d"]));
    assert_eq!(flags.parse_argument(&mut stream), Some(1));
    assert_eq!(flags.parse_argument(&mut stream), Some(4));
    assert_eq!(flags.parse_argument(&mut stream), None);
    assert_eq!(stream.peek(), Some(&b("-d")));

    let mut shorts: Shorts<u8> = Shorts::new();
    assert_eq!(shorts.try_insert(*b"-o", 1), Ok(()));
    assert_eq!(shorts.try_insert(*b"-o", 2), Err(DuplicateShortError { name: *b"-o" }));
    shorts.insert(*b"-l", 3);
    let mut stream = Tokens::new(tokens(&["-ox", "-l", "y", "-", "-o"]));
    assert_eq!(shorts.parse_argument(&mut stream), Ok(Some((1, b("x")))));
    assert_eq!(shorts.parse_argument(&mut stream), Ok(Some((3, b("y")))));
    assert_eq!(shorts.parse_argument(&mut stream), Ok(None));
    assert_eq!(stream.next(), Some(b("-")));
    assert_eq!(shorts.parse_argument(&mut stream), Err(MissingValueError { option: b("-o") }));
    assert_eq!(shorts.parse_argument(&mut stream), Ok(None));
    assert_eq!(stream.next(), None);

    let mut longs: Longs<u8> = Longs::new();
    assert_eq!(longs.try_insert(b("--out"), 1), Ok(()));
    assert_eq!(longs.try_insert(b("--out"), 2), Err(DuplicateLongError { name: b("--out") }));
    longs.insert(b("--in"), 3);
    let mut stream = Tokens::new(tokens(&["--out=a", "--in", "b", "--outer=c", "--in"]));
    assert_eq!(longs.parse_argument(&mut stream), Ok(Some((1, b("a")))));
    assert_eq!(longs.parse_argument(&mut stream), Ok(Some((3, b("b")))));
    assert_eq!(longs.parse_argument(&mut stream), Ok(None));
    assert_eq!(stream.next(), Some(b("--outer=c")));
    assert_eq!(longs.parse_argument(&mut stream), Err(MissingValueError { option: b("--in") }));

    let mut schema: Args<u8, u8> = Args::new();
    assert_eq!(schema.register_flag(b("-f"), 1), Ok(()));
    assert_eq!(
        schema.register_flag(b("-f"), 1),
        Err(DuplicateOptionError::Flag(DuplicateFlagError { flag: b("-f") }))
    );
    assert_eq!(schema.register_short(*b"-f", 1), Ok(()));
    assert_eq!(
        schema.register_short(*b"-f", 1),
        Err(DuplicateOptionError::Short(DuplicateShortError { name: *b"-f" }))
    );
    assert_eq!(schema.register_long(b("-f"), 1), Ok(()));
    assert_eq!(
        schema.register_long(b("-f"), 1),
        Err(DuplicateOptionError::Long(DuplicateLongError { name: b("-f") }))
    );
}

#[test]
fn hash_of_a_name() {
    assert_eq!(hash_name(b""), 7);
    assert_eq!(hash_name(b"-"), 7 * 31 + 45);
    assert_eq!(hash_name(b"-o"), 8233);
    assert_eq!(hash_name(b"--output"), 531966819);
}

#[test]
fn names_with_one_hash_are_told_apart() {
    assert_eq!(hash_name(b"-az"), hash_name(b"-b["));
    let mut table: Table<u8> = Table::new();
    assert!(table.try_insert(b("-az"), 1));
    assert!(table.try_insert(b("-b["), 2));
    assert!(!table.try_insert(b("-az"), 3));
    assert!(!table.try_insert(b("-b["), 4));
    assert!(table.try_insert(b("-c"), 5));
    assert_eq!(table.get(b"-az"), Some(1));
    assert_eq!(table.get(b"-b["), Some(2));
    assert_eq!(table.get(b"-c"), Some(5));
    assert_eq!(table.get(b"-a"), None);
    assert_eq!(table.get(b""), None);

    let mut flags: Flags<u8> = Flags::new();
    flags.insert(b("-az"), 1);
    flags.insert(b("-b["), 2);
    let mut stream = Tokens::new(tokens(&["-b[", "-az", "-bz"]));
    assert_eq!(flags.parse_argument(&mut stream), Some(2));
    assert_eq!(flags.parse_argument(&mut stream), Some(1));
    assert_eq!(flags.parse_argument(&mut stream), None);
}
