use psvita_linker::version_script::TrivialVersionScript;

#[test]
fn is_match() {
    const VERSION_SCRIPT_SRC: &str = r#"
    {
        global:
            a;
            ab;
            abc;
            abc*;
            abcd;
            abd;
        local:
            *;
    };
    "#;

    let got: TrivialVersionScript = TrivialVersionScript::from_str(VERSION_SCRIPT_SRC.as_bytes()).unwrap();

    let is_match_global = |s: &str| got.global.is_match(s.as_bytes());

    assert!(!is_match_global(""));
    assert!(is_match_global("a"));
    assert!(is_match_global("ab"));
    assert!(!is_match_global("ac"));
    assert!(is_match_global("abc"));
    assert!(is_match_global("abceeee"));
}

#[test]
fn exported_symbols_follow_the_global_patterns() {
    let script = TrivialVersionScript::from_str(b"{ global: main; sce*; local: *; };").unwrap();
    assert!(script.is_exported(b"main"));
    assert!(script.is_exported(b"sceDisplayGetFrameBuf"));
    assert!(!script.is_exported(b"helper"));
    assert!(script.local.is_match(b"helper"));
}
