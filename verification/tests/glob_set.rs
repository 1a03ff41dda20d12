use psvita_linker::glob_pattern::GlobPattern;
use psvita_linker::glob_set::helpers::PrefixInterface;
use psvita_linker::glob_set::prefix_successor;
use psvita_linker::glob_set::GlobSet;
use psvita_linker::lexicographic::Order;

fn exact(s: &str) -> GlobPattern<Vec<u8>> {
    GlobPattern { has_suffix: false, prefix: s.as_bytes().to_vec() }
}

fn wild(s: &str) -> GlobPattern<Vec<u8>> {
    GlobPattern { has_suffix: true, prefix: s.as_bytes().to_vec() }
}

fn listed(set: &GlobSet) -> Vec<(String, bool)> {
    set.patterns()
        .iter()
        .map(|p| (String::from_utf8(p.prefix.clone()).unwrap(), p.has_suffix))
        .collect()
}

#[test]
fn empty_set_matches_nothing() {
    let set = GlobSet::new();
    assert_eq!(set.len(), 0);
    assert!(!set.is_match(b""));
    assert!(!set.is_match(b"a"));
}

#[test]
fn exact_pattern_matches_only_itself() {
    let mut set = GlobSet::new();
    set.insert(exact("abc"));
    assert!(set.is_match(b"abc"));
    assert!(!set.is_match(b"ab"));
    assert!(!set.is_match(b"abcd"));
    assert!(!set.is_match(b""));
}

#[test]
fn wildcard_matches_every_extension() {
    let mut set = GlobSet::new();
    set.insert(wild("abc"));
    assert!(set.is_match(b"abc"));
    assert!(set.is_match(b"abcd"));
    assert!(set.is_match(b"abc\xff\xff"));
    assert!(!set.is_match(b"ab"));
    assert!(!set.is_match(b"abd"));
}

#[test]
fn inserting_twice_changes_nothing() {
    let mut once = GlobSet::new();
    once.insert(exact("a"));
    once.insert(wild("b"));
    let mut twice = GlobSet::new();
    twice.insert(exact("a"));
    twice.insert(exact("a"));
    twice.insert(wild("b"));
    twice.insert(wild("b"));
    assert_eq!(once, twice);
    assert_eq!(listed(&twice), vec![("a".to_string(), false), ("b".to_string(), true)]);
}

#[test]
fn wildcard_replaces_what_it_covers() {
    let mut set = GlobSet::new();
    set.insert(exact("abcd"));
    set.insert(exact("abce"));
    set.insert(wild("abcf"));
    set.insert(exact("abd"));
    set.insert(wild("abc"));
    assert_eq!(listed(&set), vec![("abc".to_string(), true), ("abd".to_string(), false)]);
    assert!(set.is_match(b"abcd"));
    assert!(set.is_match(b"abcz"));
    assert!(set.is_match(b"abd"));
    assert!(!set.is_match(b"abe"));
}

#[test]
fn covered_exact_pattern_is_not_added() {
    let mut set = GlobSet::new();
    set.insert(wild("abc"));
    set.insert(exact("abcd"));
    assert_eq!(listed(&set), vec![("abc".to_string(), true)]);
}

#[test]
fn universal_wildcard_absorbs_everything() {
    let mut set = GlobSet::new();
    set.insert(exact("a"));
    set.insert(wild("b"));
    set.insert(wild(""));
    assert_eq!(listed(&set), vec![("".to_string(), true)]);
    assert!(set.is_match(b""));
    assert!(set.is_match(b"a"));
    assert!(set.is_match(b"zzz"));
    set.insert(exact("q"));
    assert_eq!(listed(&set), vec![("".to_string(), true)]);
    assert!(set.is_match(b"anything"));
}

#[test]
fn wildcard_under_a_shorter_wildcard_is_not_added() {
    let mut set = GlobSet::new();
    set.insert(wild("ab"));
    set.insert(wild("abc"));
    assert_eq!(listed(&set), vec![("ab".to_string(), true)]);
    assert!(set.is_match(b"abcd"));
    assert!(set.is_match(b"abb"));
    assert!(set.is_match(b"abd"));
    assert!(!set.is_match(b"ac"));

    let mut set = GlobSet::new();
    set.insert(wild("a"));
    set.insert(wild("ab"));
    assert_eq!(listed(&set), vec![("a".to_string(), true)]);
    assert!(set.is_match(b"ac"));
    assert!(set.is_match(b"ab"));
}

#[test]
fn universal_wildcard_stays_whatever_follows() {
    let mut set = GlobSet::new();
    set.insert(wild(""));
    set.insert(wild("ab"));
    set.insert(exact("abc"));
    set.insert(wild("z"));
    set.insert(wild(""));
    assert_eq!(listed(&set), vec![("".to_string(), true)]);
    assert!(set.is_match(b"ac"));
    assert!(set.is_match(b""));
    assert!(set.is_match(b"zz"));
}

#[test]
fn insert_adds_the_matches_of_the_pattern_and_no_others() {
    let samples: [&str; 12] = ["", "a", "ab", "abc", "abd", "ac", "b", "ba", "c", "ca", "cab", "d"];
    let patterns = vec![wild("ab"), exact("a"), wild("a"), wild("abc"), exact("ca"), wild("c"), exact("")];
    let mut set = GlobSet::new();
    for p in patterns {
        let before: Vec<bool> = samples.iter().map(|s| set.is_match(s.as_bytes())).collect();
        set.insert(p.clone());
        for (i, s) in samples.iter().enumerate() {
            assert_eq!(set.is_match(s.as_bytes()), before[i] || p.is_match(s.as_bytes()), "{:?} {:?}", p, s);
        }
    }
    assert_eq!(
        listed(&set),
        vec![("".to_string(), false), ("a".to_string(), true), ("c".to_string(), true)]
    );
}

#[test]
fn subsumption() {
    let mut set = GlobSet::new();
    set.insert(exact("abcd"));
    assert!(set.is_match(b"abcd"));
    assert!(!set.is_match(b"abce"));
    set.insert(wild("abc"));
    assert_eq!(listed(&set), vec![("abc".to_string(), true)]);
    assert!(set.is_match(b"abcd"));
    assert!(set.is_match(b"abce"));
    assert!(set.is_match(b"abc"));
}

#[test]
fn predecessor_search_agrees_with_a_scan() {
    let inserted = vec![
        exact("a"),
        wild("ab"),
        exact("abc"),
        exact("b"),
        wild("ca"),
        exact("c"),
        wild("a"),
        wild("abd"),
        exact("zz"),
        wild("ca"),
        wild("cab"),
        exact(""),
    ];
    let set = GlobSet::from_iter(inserted.clone());
    let samples: [&str; 16] =
        ["", "a", "aa", "ab", "abc", "abd", "b", "ba", "c", "ca", "cab", "cb", "z", "zz", "zzz", "0"];
    for s in samples {
        let scan = inserted.iter().any(|p| p.is_match(s.as_bytes()));
        assert_eq!(set.is_match(s.as_bytes()), scan, "{:?}", s);
    }
    assert_eq!(
        listed(&set),
        vec![
            ("".to_string(), false),
            ("a".to_string(), true),
            ("b".to_string(), false),
            ("c".to_string(), false),
            ("ca".to_string(), true),
            ("zz".to_string(), false),
        ]
    );
}

#[test]
fn borrowed_pattern_is_copied_into_the_set() {
    let text = b"sce".to_vec();
    let mut set = GlobSet::new();
    set.insert_ref(GlobPattern { has_suffix: true, prefix: &text[..] });
    drop(text);
    assert!(set.is_match(b"sceIo"));
    let p = PrefixInterface(GlobPattern { has_suffix: false, prefix: &b"abc"[..] });
    assert_eq!(p.as_ref(), b"abc");
    let owned = p.into_owned();
    assert_eq!(owned.0, GlobPattern { has_suffix: false, prefix: b"abc".to_vec() });
    let other = PrefixInterface(GlobPattern { has_suffix: true, prefix: b"abc".to_vec() });
    assert_eq!(owned.compare(&other), Order::Equal);
    let later = PrefixInterface(GlobPattern { has_suffix: false, prefix: b"abd".to_vec() });
    assert_eq!(owned.compare(&later), Order::Less);
    assert_eq!(later.compare(&owned), Order::Greater);
}

#[test]
fn successor_of_a_prefix() {
    assert_eq!(prefix_successor(b"abc"), Some(b"abd".to_vec()));
    assert_eq!(prefix_successor(b"ab\xff"), Some(b"ac".to_vec()));
    assert_eq!(prefix_successor(b"\xff\xff"), None);
    assert_eq!(prefix_successor(b""), None);
}

#[test]
fn take_range_splits_out_the_middle() {
    let mut set = GlobSet::from_iter(vec![exact("a"), exact("b"), exact("c"), exact("d")]);
    let taken = set.take_range(b"b", Some(b"d"));
    assert_eq!(listed(&taken), vec![("b".to_string(), false), ("c".to_string(), false)]);
    assert_eq!(listed(&set), vec![("a".to_string(), false), ("d".to_string(), false)]);
    let rest = set.take_range(b"", None);
    assert_eq!(rest.len(), 2);
    assert_eq!(set.len(), 0);
}

#[test]
fn wildcard_ending_in_the_greatest_byte() {
    let mut set = GlobSet::new();
    set.insert(GlobPattern { has_suffix: false, prefix: b"a\xffb".to_vec() });
    set.insert(GlobPattern { has_suffix: false, prefix: b"b".to_vec() });
    set.insert(GlobPattern { has_suffix: true, prefix: b"a\xff".to_vec() });
    assert_eq!(set.len(), 2);
    assert!(set.is_match(b"a\xffzz"));
    assert!(set.is_match(b"b"));
    assert!(!set.is_match(b"a"));
}
