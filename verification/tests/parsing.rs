use psvita_linker::glob_pattern::GlobPattern;
use psvita_linker::glob_pattern::ParseGlobPatternError;
use psvita_linker::version_script::find_end;
use psvita_linker::version_script::tokenize;
use psvita_linker::version_script::ParseTrivialVersionScriptErrorKind;
use psvita_linker::version_script::Position;
use psvita_linker::version_script::Span;
use psvita_linker::version_script::Token;
use psvita_linker::version_script::TrivialVersionScript;

#[test]
fn parse_basic() {
    const VERSION_SCRIPT_SRC: &str = r#"
    {
        global:
        local:
            *;
    };
    "#;

    let got: TrivialVersionScript = TrivialVersionScript::from_str(VERSION_SCRIPT_SRC.as_bytes()).unwrap();
    let mut expect = TrivialVersionScript::new();

    // global
    {}

    // local
    {
        expect.local.insert(GlobPattern {
            has_suffix: true,
            prefix: Vec::new(),
        });
    }

    assert_eq!(got, expect);
}

#[test]
fn parse_intersecting() {
    const VERSION_SCRIPT_SRC: &str = r#"
    {
        global:
            a;
            ab;
            abc;
            abc*;
            abcd;
            abd;
        local:
            *;
    };
    "#;

    let got: TrivialVersionScript = TrivialVersionScript::from_str(VERSION_SCRIPT_SRC.as_bytes()).unwrap();
    let mut expect = TrivialVersionScript::new();

    // global
    {
        expect.global.insert(GlobPattern {
            has_suffix: false,
            prefix: "a".as_bytes().to_vec(),
        });
        expect.global.insert(GlobPattern {
            has_suffix: false,
            prefix: "ab".as_bytes().to_vec(),
        });
        expect.global.insert(GlobPattern {
            has_suffix: true,
            prefix: "abc".as_bytes().to_vec(),
        });
        expect.global.insert(GlobPattern {
            has_suffix: false,
            prefix: "abd".as_bytes().to_vec(),
        });
    }

    // local
    {
        expect.local.insert(GlobPattern {
            has_suffix: true,
            prefix: Vec::new(),
        });
    }

    assert_eq!(got, expect);
}

#[test]
fn pattern_text_with_and_without_star() {
    assert_eq!(
        GlobPattern::<Vec<u8>>::from_str(b"abc"),
        Ok(GlobPattern { has_suffix: false, prefix: b"abc".to_vec() })
    );
    assert_eq!(
        GlobPattern::<Vec<u8>>::from_str(b"abc*"),
        Ok(GlobPattern { has_suffix: true, prefix: b"abc".to_vec() })
    );
    assert_eq!(
        GlobPattern::<Vec<u8>>::from_str(b"*"),
        Ok(GlobPattern { has_suffix: true, prefix: Vec::new() })
    );
    assert_eq!(
        GlobPattern::<Vec<u8>>::from_str(b""),
        Ok(GlobPattern { has_suffix: false, prefix: Vec::new() })
    );
    assert_eq!(GlobPattern::<Vec<u8>>::from_str(b"a*b"), Err(ParseGlobPatternError));
    assert_eq!(GlobPattern::<Vec<u8>>::from_str(b"a**"), Err(ParseGlobPatternError));
    assert_eq!(GlobPattern::<Vec<u8>>::from_str(b"*a"), Err(ParseGlobPatternError));
    assert_eq!(ParseGlobPatternError.message(), "mailformed glob pattern");
}

#[test]
fn borrowed_pattern_and_its_conversions() {
    let text = b"sce*";
    let p = GlobPattern::<&[u8]>::try_from(&text[..]).unwrap();
    assert!(p.has_suffix);
    assert_eq!(p.prefix, b"sce");
    let owned = p.map_prefix(|s: &[u8]| s.to_vec());
    assert_eq!(owned, GlobPattern { has_suffix: true, prefix: b"sce".to_vec() });
    let again = owned.as_ref();
    assert!(again.has_suffix);
    assert_eq!(again.prefix, &b"sce".to_vec());
    assert!(owned.is_match(b"sceKernel"));
    assert!(!owned.is_match(b"sc"));
}

#[test]
fn tokens_and_their_spans() {
    let got = tokenize(b"{ global:\n\tfoo*; local }x;");
    let expect = vec![
        (Token::BraceOpen, Span { start: 0, end: 1 }),
        (Token::Global, Span { start: 2, end: 8 }),
        (Token::Colon, Span { start: 8, end: 9 }),
        (Token::GlobPattern, Span { start: 11, end: 15 }),
        (Token::SemiColon, Span { start: 15, end: 16 }),
        (Token::Local, Span { start: 17, end: 22 }),
        (Token::BraceClose, Span { start: 23, end: 24 }),
        (Token::GlobPattern, Span { start: 24, end: 25 }),
        (Token::SemiColon, Span { start: 25, end: 26 }),
    ];
    assert_eq!(got, expect);
}

#[test]
fn keyword_inside_a_longer_word_is_a_pattern() {
    let got = tokenize(b"globals local_ global");
    assert_eq!(
        got,
        vec![
            (Token::GlobPattern, Span { start: 0, end: 7 }),
            (Token::GlobPattern, Span { start: 8, end: 14 }),
            (Token::Global, Span { start: 15, end: 21 }),
        ]
    );
}

#[test]
fn byte_outside_the_alphabet_is_a_lexing_error() {
    let err = TrivialVersionScript::from_str(b"{ global: a#; local: *; };").unwrap_err();
    assert_eq!(err.kind, ParseTrivialVersionScriptErrorKind::ErrorToken);
    assert_eq!(err.got, Some((Token::Error, Span { start: 11, end: 12 })));
    assert_eq!(err.expected, Some(vec![Token::SemiColon]));
    assert_eq!(err.kind.message(), "lexing error");
}

#[test]
fn carriage_return_is_not_skipped() {
    let err = TrivialVersionScript::from_str(b"{\r\n global: local: };").unwrap_err();
    assert_eq!(err.kind, ParseTrivialVersionScriptErrorKind::ErrorToken);
    assert_eq!(err.got, Some((Token::Error, Span { start: 1, end: 2 })));
}

#[test]
fn wrong_token_names_what_was_expected() {
    let err = TrivialVersionScript::from_str(b"{ local: *; };").unwrap_err();
    assert_eq!(err.kind, ParseTrivialVersionScriptErrorKind::WrongToken);
    assert_eq!(err.got, Some((Token::Local, Span { start: 2, end: 7 })));
    assert_eq!(err.expected, Some(vec![Token::Global]));

    let err = TrivialVersionScript::from_str(b"{ global: a b; local: };").unwrap_err();
    assert_eq!(err.kind, ParseTrivialVersionScriptErrorKind::WrongToken);
    assert_eq!(err.got, Some((Token::GlobPattern, Span { start: 12, end: 13 })));
    assert_eq!(err.expected, Some(vec![Token::SemiColon]));

    let err = TrivialVersionScript::from_str(b"{ global: }; local: };").unwrap_err();
    assert_eq!(err.kind, ParseTrivialVersionScriptErrorKind::WrongToken);
    assert_eq!(err.expected, Some(vec![Token::GlobPattern, Token::Local]));
    assert_eq!(err.kind.message(), "wrong token");
}

#[test]
fn text_that_ends_too_early() {
    let err = TrivialVersionScript::from_str(b"").unwrap_err();
    assert_eq!(err.kind, ParseTrivialVersionScriptErrorKind::UnexpectedEnd);
    assert_eq!(err.got, None);
    assert_eq!(err.expected, Some(vec![Token::BraceOpen]));

    let err = TrivialVersionScript::from_str(b"{ global: a; local: *; }").unwrap_err();
    assert_eq!(err.kind, ParseTrivialVersionScriptErrorKind::UnexpectedEnd);
    assert_eq!(err.expected, Some(vec![Token::SemiColon]));

    let err = TrivialVersionScript::from_str(b"{ global: a; local: *;").unwrap_err();
    assert_eq!(err.kind, ParseTrivialVersionScriptErrorKind::UnexpectedEnd);
    assert_eq!(err.expected, Some(vec![Token::GlobPattern, Token::BraceClose]));
    assert_eq!(err.kind.message(), "unexpected end");
}

#[test]
fn token_behind_the_end_of_the_script() {
    let err = TrivialVersionScript::from_str(b"{ global: local: }; extra").unwrap_err();
    assert_eq!(err.kind, ParseTrivialVersionScriptErrorKind::ExpectedEnd);
    assert_eq!(err.got, Some((Token::GlobPattern, Span { start: 20, end: 25 })));
    assert_eq!(err.expected, None);
    assert_eq!(err.kind.message(), "expected end");
}

#[test]
fn star_in_the_middle_of_a_pattern() {
    let err = TrivialVersionScript::from_str(b"{ global: a*b; local: *; };").unwrap_err();
    assert_eq!(err.kind, ParseTrivialVersionScriptErrorKind::GlobError(ParseGlobPatternError));
    assert_eq!(err.got, Some((Token::GlobPattern, Span { start: 10, end: 13 })));
    assert_eq!(err.expected, None);
    assert_eq!(err.kind.message(), "glob pattern parsing error");
}

#[test]
fn script_without_any_pattern() {
    let got = TrivialVersionScript::from_str(b"{global:local:};").unwrap();
    assert_eq!(got, TrivialVersionScript::new());
    assert_eq!(got.global.len(), 0);
    assert_eq!(got.local.len(), 0);
}

#[test]
fn line_and_column_of_an_offset() {
    let text = b"ab\ncd\n\nxyz";
    assert_eq!(find_end(text, 0), Position { line: 1, column: 1 });
    assert_eq!(find_end(text, 2), Position { line: 1, column: 3 });
    assert_eq!(find_end(text, 3), Position { line: 2, column: 1 });
    assert_eq!(find_end(text, 5), Position { line: 2, column: 3 });
    assert_eq!(find_end(text, 6), Position { line: 3, column: 1 });
    assert_eq!(find_end(text, 7), Position { line: 4, column: 1 });
    assert_eq!(find_end(text, 10), Position { line: 4, column: 4 });
}

#[test]
fn column_counts_characters_not_bytes() {
    let text = "é#".as_bytes();
    assert_eq!(text.len(), 3);
    assert_eq!(find_end(text, 2), Position { line: 1, column: 2 });
    assert_eq!(find_end(text, 3), Position { line: 1, column: 3 });
}

#[test]
fn pretty_parse_locates_the_offending_token() {
    let text = b"{\n  global:\n    a;\n    b*c;\n  local: *;\n};\n";
    let err = TrivialVersionScript::pretty_parse(text).unwrap_err();
    assert_eq!(err.error.kind, ParseTrivialVersionScriptErrorKind::GlobError(ParseGlobPatternError));
    assert_eq!(err.error.got, Some((Token::GlobPattern, Span { start: 23, end: 26 })));
    assert_eq!(
        err.location,
        Some((Position { line: 4, column: 5 }, Position { line: 4, column: 8 }))
    );

    let err = TrivialVersionScript::pretty_parse(b"{ global:").unwrap_err();
    assert_eq!(err.error.kind, ParseTrivialVersionScriptErrorKind::UnexpectedEnd);
    assert_eq!(err.location, None);

    let ok = TrivialVersionScript::pretty_parse(b"{ global: a; local: *; };").unwrap();
    assert!(ok.global.is_match(b"a"));
}
