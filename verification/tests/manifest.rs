use suture::schema::{escape_toml, ProjectManifest};

fn deps(m: &ProjectManifest) -> Vec<(String, String)> {
    m.dependencies().clone()
}

fn pair(a: &str, b: &str) -> (String, String) {
    (a.to_string(), b.to_string())
}

#[test]
fn default_manifest_writes_only_the_dependencies_table() {
    let m = ProjectManifest::default();
    assert_eq!(m.to_toml(), "[dependencies]\n");
    assert_eq!(&m.package_name, &None);
    assert_eq!(&m.package_version, &None);
    assert!(m.dependencies().is_empty());
}

#[test]
fn dependencies_are_kept_in_key_order() {
    let mut m = ProjectManifest::default();
    m.set_dependency("zeta".to_string(), "1".to_string());
    m.set_dependency("alpha".to_string(), "2".to_string());
    m.set_dependency("Beta".to_string(), "3".to_string());
    m.set_dependency("alp".to_string(), "4".to_string());
    assert_eq!(deps(&m), vec![pair("Beta", "3"), pair("alp", "4"), pair("alpha", "2"), pair("zeta", "1")]);
    assert_eq!(m.to_toml(), "[dependencies]\nBeta = \"3\"\nalp = \"4\"\nalpha = \"2\"\nzeta = \"1\"\n");
}

#[test]
fn set_dependency_replaces_an_existing_version() {
    let mut m = ProjectManifest::default();
    m.set_dependency("core".to_string(), "1".to_string());
    m.set_dependency("core".to_string(), "2".to_string());
    assert_eq!(deps(&m), vec![pair("core", "2")]);
}

#[test]
fn remove_dependency_reports_whether_it_was_there() {
    let mut m = ProjectManifest::default();
    m.set_dependency("a".to_string(), "1".to_string());
    m.set_dependency("b".to_string(), "2".to_string());
    assert!(m.remove_dependency("a"));
    assert!(!m.remove_dependency("a"));
    assert!(!m.remove_dependency("zzz"));
    assert_eq!(deps(&m), vec![pair("b", "2")]);
}

#[test]
fn set_then_remove_restores_the_dependencies() {
    let mut m = ProjectManifest::default();
    m.set_dependency("keep".to_string(), "1".to_string());
    let before = m.clone();
    m.set_dependency("new".to_string(), "9".to_string());
    assert!(m.remove_dependency("new"));
    assert_eq!(m, before);
    assert!(!m.remove_dependency("new"));
}

#[test]
fn parse_reads_package_and_dependencies() {
    let src = "# project\n[package]\nname = \"app\"\nversion = \"0.3.0\"\nedition = \"x\"\n\n[dependencies]\nzed = \"1\"\ncore = 2\ncore = \"3\"\n";
    let m = ProjectManifest::parse(src).unwrap();
    assert_eq!(&m.package_name, &Some("app".to_string()));
    assert_eq!(&m.package_version, &Some("0.3.0".to_string()));
    assert_eq!(deps(&m), vec![pair("core", "3"), pair("zed", "1")]);
}

#[test]
fn parse_rejects_a_line_without_equals() {
    assert_eq!(ProjectManifest::parse("[dependencies]\nbroken line\n"), None);
    assert_eq!(ProjectManifest::parse("garbage"), None);
    assert!(ProjectManifest::parse("key = \"outside any section\"\n").is_some());
}

#[test]
fn to_toml_writes_the_package_table_and_escapes_values() {
    let m = ProjectManifest::parse("[package]\nname = app\n[dependencies]\nx = a\\b\"c\n").unwrap();
    assert_eq!(m.to_toml(), "[package]\nname = \"app\"\n\n[dependencies]\nx = \"a\\\\b\\\"c\"\n");
    let v = ProjectManifest::parse("[package]\nversion = \"1\"\n").unwrap();
    assert_eq!(v.to_toml(), "[package]\nversion = \"1\"\n\n[dependencies]\n");
}

#[test]
fn escape_toml_escapes_backslashes_and_quotes() {
    assert_eq!(escape_toml("a\\b\"c"), "a\\\\b\\\"c");
    assert_eq!(escape_toml("plain"), "plain");
}

#[test]
fn manifest_parse_reads_back_what_to_toml_writes() {
    let m = ProjectManifest::parse("[package]\nname = \"app\"\nversion = \"1.0\"\n[dependencies]\nb = \"2\"\na = \"1\"\n").unwrap();
    assert_eq!(ProjectManifest::parse(&m.to_toml()), Some(m.clone()));
    let d = ProjectManifest::default();
    assert_eq!(ProjectManifest::parse(&d.to_toml()), Some(d));
}

#[test]
fn read_or_default_and_path_for_dir() {
    assert_eq!(ProjectManifest::read_or_default("p/suture.toml", None), Ok(ProjectManifest::default()));
    assert_eq!(
        ProjectManifest::read_or_default("p/suture.toml", Some("oops")),
        Err("invalid manifest `p/suture.toml`".to_string())
    );
    let m = ProjectManifest::read_or_default("p", Some("[dependencies]\na = \"1\"\n")).unwrap();
    assert_eq!(deps(&m), vec![pair("a", "1")]);
    assert_eq!(ProjectManifest::path_for_dir("proj"), "proj/suture.toml");
    assert_eq!(ProjectManifest::path_for_dir("proj/"), "proj/suture.toml");
    assert_eq!(ProjectManifest::path_for_dir(""), "suture.toml");
}

#[test]
fn key_order_is_by_character_code() {
    let mut m = ProjectManifest::default();
    m.set_dependency("é".to_string(), "1".to_string());
    m.set_dependency("z".to_string(), "2".to_string());
    m.set_dependency("Z".to_string(), "3".to_string());
    m.set_dependency("".to_string(), "4".to_string());
    assert_eq!(deps(&m), vec![pair("", "4"), pair("Z", "3"), pair("z", "2"), pair("é", "1")]);
}
