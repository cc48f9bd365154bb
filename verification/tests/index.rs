use suture::cache::spools_root;
use suture::paths::join;
use suture::search::{bucket_for_name, find_spool, list_spools, name_matches, search_by_name, spool_path};
use suture::spool_entry::SpoolEntry;

#[test]
fn bucket_for_name_cases() {
    assert_eq!(bucket_for_name("libfoo"), "lib");
    assert_eq!(bucket_for_name("LibFoo"), "lib");
    assert_eq!(bucket_for_name("  lib"), "lib");
    assert_eq!(bucket_for_name("apple"), "a");
    assert_eq!(bucket_for_name("  Zeta "), "z");
    assert_eq!(bucket_for_name("li"), "l");
    assert_eq!(bucket_for_name("9lives"), "lib");
    assert_eq!(bucket_for_name(""), "lib");
    assert_eq!(bucket_for_name("émile"), "lib");
    assert_eq!(bucket_for_name("-x"), "lib");
}

#[test]
fn bucket_is_lib_or_one_letter() {
    for name in ["", "x", "Q", "library", "Ünïcode", "  m  ", "#tag"] {
        let b = bucket_for_name(name);
        assert!(b == "lib" || (b.len() == 1 && b.as_bytes()[0].is_ascii_lowercase()));
    }
}

#[test]
fn bucket_ignores_case_and_padding() {
    assert_eq!(bucket_for_name("Mesh"), bucket_for_name("  mesh\t"));
    assert_eq!(bucket_for_name("LIBRARY"), bucket_for_name("library"));
}

#[test]
fn spool_path_layout() {
    assert_eq!(spool_path("/reg", "Foo", "1.0"), "/reg/entries/f/Foo/1.0/spool.toml");
    assert_eq!(spool_path("/reg/", "libm", "2"), "/reg/entries/lib/libm/2/spool.toml");
}

#[test]
fn join_follows_path_rules() {
    assert_eq!(join("a", "b"), "a/b");
    assert_eq!(join("a/", "b"), "a/b");
    assert_eq!(join("", "b"), "b");
    assert_eq!(join("a", "/abs"), "/abs");
    assert_eq!(join("a", ""), "a/");
}

#[test]
fn list_spools_keeps_the_entries_that_parse() {
    let good = SpoolEntry::from_parts("a", "1", "g", None);
    let other = SpoolEntry::from_parts("b", "2", "h", Some("t"));
    let sources = vec![good.to_toml(), "not an entry".to_string(), other.to_toml()];
    assert_eq!(list_spools(&sources), vec![good, other]);
    assert!(list_spools(&Vec::new()).is_empty());
}

#[test]
fn find_spool_outcomes() {
    assert_eq!(find_spool("p", None), Ok(None));
    let e = SpoolEntry::from_parts("a", "1", "g", None);
    assert_eq!(find_spool("p", Some(&e.to_toml())), Ok(Some(e)));
    assert_eq!(find_spool("x/spool.toml", Some("bad")), Err("invalid spool entry `x/spool.toml`".to_string()));
}

#[test]
fn search_by_name_ignores_case() {
    let entries = vec![
        SpoolEntry::from_parts("MyLib", "1", "g", None),
        SpoolEntry::from_parts("other", "1", "g", None),
        SpoolEntry::from_parts("libcore", "2", "g", None),
    ];
    let found = search_by_name(entries.clone(), "LIB");
    assert_eq!(found.iter().map(|e| e.name.as_str()).collect::<Vec<_>>(), vec!["MyLib", "libcore"]);
    assert_eq!(search_by_name(entries.clone(), "").len(), 3);
    assert!(search_by_name(entries, "nothing").is_empty());
}

#[test]
fn search_by_name_uses_unicode_case_mapping() {
    let entries = vec![SpoolEntry::from_parts("ÉCOLE", "1", "g", None)];
    assert_eq!(search_by_name(entries.clone(), "école").len(), 1);
    assert_eq!(search_by_name(entries, "ÉCO").len(), 1);
}

#[test]
fn name_matches_is_substring() {
    assert!(name_matches("mylib", "lib"));
    assert!(name_matches("abc", ""));
    assert!(!name_matches("ab", "abc"));
    assert!(!name_matches("mylib", "LIB"));
}

#[test]
fn spools_root_choices() {
    assert_eq!(spools_root(Some("/custom"), Some("/u"), Some("/h")), Some("/custom".to_string()));
    assert_eq!(
        spools_root(Some(""), Some("/u"), Some("/h")),
        Some("/u/.mentalogue/suture/spools-index".to_string())
    );
    assert_eq!(spools_root(None, None, Some("/h/")), Some("/h/.mentalogue/suture/spools-index".to_string()));
    assert_eq!(spools_root(None, None, None), None);
}
