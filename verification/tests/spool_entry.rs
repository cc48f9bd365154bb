use suture::spool_entry::{SpoolArtifact, SpoolEntry};
use suture::kv::{parse_key_value, trim_quotes};

fn full_entry() -> SpoolEntry {
    let mut e = SpoolEntry::from_parts("demo", "1.2.3", "https://example.com/demo.git", Some("v1.2.3"));
    e.summary = Some("A demo spool".to_string());
    e.source_rev = Some("abc123".to_string());
    e.build_entry = Some("src/lib.mtl".to_string());
    e.dependencies = vec![("core".to_string(), "0.1.0".to_string()), ("util".to_string(), "2.0".to_string())];
    e.dev_dependencies = vec![("testkit".to_string(), "1.0".to_string())];
    e.artifacts = vec![
        SpoolArtifact {
            target: "linux-x86_64".to_string(),
            url: "https://example.com/demo-linux.mlib".to_string(),
            checksum: Some("sha256:00ff".to_string()),
        },
        SpoolArtifact {
            target: "windows-x86_64".to_string(),
            url: "https://example.com/demo-win.mlib".to_string(),
            checksum: None,
        },
    ];
    e
}

fn chars(s: &str) -> Vec<char> {
    s.chars().collect()
}

#[test]
fn from_parts_sets_only_given_fields() {
    let e = SpoolEntry::from_parts("demo", "1.0.0", "https://x/y.git", None);
    assert_eq!(e.name, "demo");
    assert_eq!(e.version, "1.0.0");
    assert_eq!(e.source_git, "https://x/y.git");
    assert_eq!(e.source_tag, None);
    assert_eq!(e.summary, None);
    assert_eq!(e.source_rev, None);
    assert_eq!(e.build_entry, None);
    assert!(e.dependencies.is_empty());
    assert!(e.dev_dependencies.is_empty());
    assert!(e.artifacts.is_empty());
    let t = SpoolEntry::from_parts("demo", "1.0.0", "g", Some("v1"));
    assert_eq!(t.source_tag, Some("v1".to_string()));
}

#[test]
fn to_toml_of_minimal_entry() {
    let e = SpoolEntry::from_parts("demo", "1.0.0", "https://x/y.git", Some("v1.0.0"));
    assert_eq!(
        e.to_toml(),
        "[package]\nname = \"demo\"\nversion = \"1.0.0\"\n\n[source]\ngit = \"https://x/y.git\"\ntag = \"v1.0.0\"\n"
    );
}

#[test]
fn to_toml_of_full_entry() {
    let expected = "[package]\nname = \"demo\"\nversion = \"1.2.3\"\nsummary = \"A demo spool\"\n\n\
[source]\ngit = \"https://example.com/demo.git\"\ntag = \"v1.2.3\"\nrev = \"abc123\"\n\n\
[build]\nentry = \"src/lib.mtl\"\n\n\
[dependencies]\ncore = \"0.1.0\"\nutil = \"2.0\"\n\n\
[dev-dependencies]\ntestkit = \"1.0\"\n\n\
[[artifacts]]\ntarget = \"linux-x86_64\"\nurl = \"https://example.com/demo-linux.mlib\"\nchecksum = \"sha256:00ff\"\n\n\
[[artifacts]]\ntarget = \"windows-x86_64\"\nurl = \"https://example.com/demo-win.mlib\"\n";
    assert_eq!(full_entry().to_toml(), expected);
}

#[test]
fn entry_parse_reads_back_what_to_toml_writes() {
    let e = full_entry();
    assert_eq!(SpoolEntry::parse(&e.to_toml()), Some(e));
    let m = SpoolEntry::from_parts("x", "0", "g", None);
    assert_eq!(SpoolEntry::parse(&m.to_toml()), Some(m));
}

#[test]
fn parse_roundtrip_keeps_odd_but_plain_values() {
    let mut e = SpoolEntry::from_parts("na\"me", "  1.0 ", "a=b", Some(""));
    e.dependencies = vec![("".to_string(), "x \"y\" = z".to_string()), ("[weird".to_string(), "v".to_string())];
    assert_eq!(SpoolEntry::parse(&e.to_toml()), Some(e));
}

#[test]
fn parse_requires_name_version_and_git() {
    assert_eq!(SpoolEntry::parse("[package]\nname = \"a\"\nversion = \"1\"\n"), None);
    assert_eq!(SpoolEntry::parse("[package]\nname = \"a\"\n[source]\ngit = \"g\"\n"), None);
    assert_eq!(SpoolEntry::parse("[package]\nversion = \"1\"\n[source]\ngit = \"g\"\n"), None);
    assert_eq!(SpoolEntry::parse(""), None);
}

#[test]
fn parse_skips_comments_blank_lines_and_unknown_keys() {
    let src = "# a comment\n\n[package]\n  name = demo  \nversion=\"2\"\nlicense = \"MIT\"\nno equals sign here\n[source]\ngit = 'g'\n[other]\nname = \"ignored\"\n";
    let e = SpoolEntry::parse(src).unwrap();
    assert_eq!(e.name, "demo");
    assert_eq!(e.version, "2");
    assert_eq!(e.source_git, "'g'");
}

#[test]
fn parse_handles_crlf_and_unicode_whitespace() {
    let src = "[package]\r\n\u{3000}name = \"demo\"\u{a0}\r\nversion = \"1\"\r\n[source]\r\ngit = \"g\"\r\n";
    let e = SpoolEntry::parse(src).unwrap();
    assert_eq!(e.name, "demo");
    assert_eq!(e.version, "1");
    assert_eq!(e.source_git, "g");
}

#[test]
fn parse_collects_artifacts_and_ignores_artifact_keys_outside_a_table() {
    let src = "[package]\nname = \"a\"\nversion = \"1\"\n[source]\ngit = \"g\"\n\
[artifacts]\ntarget = \"ignored\"\n\
[[artifacts]]\ntarget = \"t1\"\n\
[[artifacts]]\nurl = \"u2\"\nchecksum = \"c2\"\n\
[dependencies]\nx = \"1\"\n";
    let e = SpoolEntry::parse(src).unwrap();
    assert_eq!(e.artifacts.len(), 2);
    assert_eq!(e.artifacts[0], SpoolArtifact { target: "t1".to_string(), url: String::new(), checksum: None });
    assert_eq!(
        e.artifacts[1],
        SpoolArtifact { target: String::new(), url: "u2".to_string(), checksum: Some("c2".to_string()) }
    );
    assert_eq!(e.dependencies, vec![("x".to_string(), "1".to_string())]);
}

#[test]
fn parse_keeps_repeated_dependencies_in_order() {
    let src = "[package]\nname = \"a\"\nversion = \"1\"\n[source]\ngit = \"g\"\n[dev-dependencies]\nb = \"1\"\nb = \"2\"\n[[dependencies]]\nz = \"9\"\n";
    let e = SpoolEntry::parse(src).unwrap();
    assert_eq!(e.dev_dependencies, vec![("b".to_string(), "1".to_string()), ("b".to_string(), "2".to_string())]);
    assert_eq!(e.dependencies, vec![("z".to_string(), "9".to_string())]);
}

#[test]
fn parse_key_value_splits_at_first_equals() {
    let (k, v) = parse_key_value(&chars("a = b = \"c\"")).unwrap();
    assert_eq!(k, chars("a"));
    assert_eq!(v, chars("b = \"c\""));
    let (k, v) = parse_key_value(&chars("key=\"va lue\"")).unwrap();
    assert_eq!(k, chars("key"));
    assert_eq!(v, chars("va lue"));
    assert!(parse_key_value(&chars("no equals")).is_none());
}

#[test]
fn trim_quotes_removes_one_pair_only() {
    assert_eq!(trim_quotes(&chars("  \"x\"  ")), chars("x"));
    assert_eq!(trim_quotes(&chars("\"\"x\"\"")), chars("\"x\""));
    assert_eq!(trim_quotes(&chars("\"")), chars("\""));
    assert_eq!(trim_quotes(&chars("\"\"")), chars(""));
    assert_eq!(trim_quotes(&chars("plain")), chars("plain"));
}

#[test]
fn read_reports_invalid_entries() {
    assert_eq!(SpoolEntry::read("a/spool.toml", "nothing"), Err("invalid spool entry `a/spool.toml`".to_string()));
    let e = SpoolEntry::from_parts("x", "1", "g", None);
    assert_eq!(SpoolEntry::read("p", &e.to_toml()), Ok(e));
}
