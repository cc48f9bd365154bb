use suture::support::{next_emit_step, EmitStep};
use suture::fetch::{registry_plan, RegistryPlan};
use suture::schema::ProjectManifest;
use suture::spool_entry::SpoolEntry;
use suture::support::{
    build_entry_candidates, built_mlib_path, cached_spool_dirs, checkout_ref, emit_failure,
    find_exact_spool, host_target, load_manifest, manifest_path, resolve_build_entry,
    save_manifest, source_checkout_dir, suture_root,
};

#[test]
fn project_paths() {
    assert_eq!(manifest_path("/p"), "/p/suture.toml");
    assert_eq!(suture_root("/p"), "/p/.suture");
    assert_eq!(source_checkout_dir("/p", "core", "1.0"), "/p/.suture/sources/core/1.0");
    assert_eq!(built_mlib_path("/p", "core", "1.0"), "/p/.suture/mlib/core/1.0/core.mlib");
    assert_eq!(
        cached_spool_dirs("/p", "core"),
        ("/p/.suture/sources/core".to_string(), "/p/.suture/mlib/core".to_string())
    );
}

#[test]
fn load_and_save_manifest() {
    assert_eq!(load_manifest("/p", None), Ok(ProjectManifest::default()));
    assert_eq!(load_manifest("/p", Some("bad")), Err("invalid manifest `/p/suture.toml`".to_string()));
    let mut m = load_manifest("/p", Some("[dependencies]\na = \"1\"\n")).unwrap();
    m.set_dependency("b".to_string(), "2".to_string());
    let (path, text) = save_manifest("/p", &m);
    assert_eq!(path, "/p/suture.toml");
    assert_eq!(text, "[dependencies]\na = \"1\"\nb = \"2\"\n");
    assert_eq!(load_manifest("/p", Some(&text)), Ok(m));
}

#[test]
fn find_exact_spool_outcomes() {
    let e = SpoolEntry::from_parts("a", "1", "g", None);
    assert_eq!(find_exact_spool("a", "1", Ok(Some(e.clone()))), Ok(e));
    assert_eq!(
        find_exact_spool("a", "1", Ok(None)),
        Err("spool `a` version `1` not found in the index".to_string())
    );
    assert_eq!(find_exact_spool("a", "1", Err("io".to_string())), Err("io".to_string()));
}

#[test]
fn checkout_ref_prefers_rev() {
    let mut e = SpoolEntry::from_parts("a", "1", "g", Some("v1"));
    assert_eq!(checkout_ref(&e), Some("v1".to_string()));
    e.source_rev = Some("abc".to_string());
    assert_eq!(checkout_ref(&e), Some("abc".to_string()));
    let n = SpoolEntry::from_parts("a", "1", "g", None);
    assert_eq!(checkout_ref(&n), None);
}

#[test]
fn build_entry_resolution() {
    let mut e = SpoolEntry::from_parts("core", "1", "g", None);
    assert_eq!(build_entry_candidates(&e), vec!["lib.mtl", "src/lib.mtl", "main.mtl", "src/main.mtl"]);
    assert_eq!(resolve_build_entry(&e, "/s", &vec![false, true, true, false]), Ok("/s/src/lib.mtl".to_string()));
    assert_eq!(
        resolve_build_entry(&e, "/s", &vec![false, false, false, false]),
        Err("unable to find build entry for `core`; set `[build] entry = \"...\"` in spool.toml".to_string())
    );
    assert!(resolve_build_entry(&e, "/s", &vec![false]).is_err());
    e.build_entry = Some("custom.mtl".to_string());
    assert_eq!(build_entry_candidates(&e)[0], "custom.mtl");
    assert_eq!(resolve_build_entry(&e, "/s", &vec![true, true, true, true, true]), Ok("/s/custom.mtl".to_string()));
}

#[test]
fn emit_failure_message_lists_failures() {
    assert_eq!(
        emit_failure(&vec!["a failed".to_string(), "b failed".to_string()]),
        "failed to emit mlib; a failed; b failed. Set SUTURE_INSCRIBE_BIN to a valid inscribe executable."
    );
    assert_eq!(
        emit_failure(&vec![]),
        "failed to emit mlib; . Set SUTURE_INSCRIBE_BIN to a valid inscribe executable."
    );
}

#[test]
fn host_target_names() {
    assert_eq!(host_target(true), "windows-x86_64");
    assert_eq!(host_target(false), "linux-x86_64");
}

fn strs(list: &[&str]) -> Vec<String> {
    list.iter().map(|s| s.to_string()).collect()
}

#[test]
fn sync_plan_commands() {
    let mut e = SpoolEntry::from_parts("core", "1", "https://g/core.git", Some("v1"));
    let p = suture::support::sync_plan(&e, "/d", true, true);
    assert!(!p.remove_existing);
    assert_eq!(
        p.commands,
        vec![
            strs(&["-C", "/d", "fetch", "--all", "--tags", "--force"]),
            strs(&["-C", "/d", "reset", "--hard", "HEAD"]),
            strs(&["-C", "/d", "checkout", "--force", "v1"]),
        ]
    );
    e.source_rev = Some("abc".to_string());
    let p = suture::support::sync_plan(&e, "/d", false, true);
    assert!(p.remove_existing);
    assert_eq!(
        p.commands,
        vec![strs(&["clone", "https://g/core.git", "/d"]), strs(&["-C", "/d", "checkout", "--force", "abc"])]
    );
    let n = SpoolEntry::from_parts("core", "1", "g", None);
    let p = suture::support::sync_plan(&n, "/d", false, false);
    assert!(!p.remove_existing);
    assert_eq!(p.commands, vec![strs(&["clone", "g", "/d"])]);
}

#[test]
fn emit_arguments_and_override() {
    assert_eq!(
        suture::support::emit_args("/s/lib.mtl", "linux-x86_64", "/o/core.mlib"),
        strs(&["emit", "mlib", "/s/lib.mtl", "--target", "linux-x86_64", "-o", "/o/core.mlib"])
    );
    assert_eq!(suture::support::inscribe_override(Some(" /bin/inscribe ")), Some(" /bin/inscribe ".to_string()));
    assert_eq!(suture::support::inscribe_override(Some("  ")), None);
    assert_eq!(suture::support::inscribe_override(None), None);
}

#[test]
fn registry_plan_choices() {
    match registry_plan("/r", true, true, None) {
        RegistryPlan::Pull(a) => assert_eq!(a, strs(&["-C", "/r", "pull", "--ff-only"])),
        other => panic!("unexpected {other:?}"),
    }
    assert!(matches!(registry_plan("/r", false, true, None), RegistryPlan::UseExisting));
    match registry_plan("/r", false, false, None) {
        RegistryPlan::Clone(a) => {
            assert_eq!(a, strs(&["clone", "https://github.com/MentalogueLang/Spools-Index.git", "/r"]))
        }
        other => panic!("unexpected {other:?}"),
    }
    match registry_plan("/r", false, false, Some("https://mirror/x.git")) {
        RegistryPlan::Clone(a) => assert_eq!(a, strs(&["clone", "https://mirror/x.git", "/r"])),
        other => panic!("unexpected {other:?}"),
    }
}

#[test]
fn emit_attempts_in_order() {
    let args = strs(&["emit", "mlib", "in", "--target", "t", "-o", "out"]);
    let a = suture::support::emit_attempts(Some(" /bin/x "), Some("/i/Cargo.toml"), &args);
    let got: Vec<(String, Vec<String>, String)> =
        a.into_iter().map(|x| (x.program, x.args, x.label)).collect();
    let mut cargo = strs(&["run", "--manifest-path", "/i/Cargo.toml", "-p", "inscribe-cli", "--"]);
    cargo.extend(args.clone());
    assert_eq!(
        got,
        vec![
            (" /bin/x ".to_string(), args.clone(), "inscribe emit mlib".to_string()),
            ("inscribe".to_string(), args.clone(), "inscribe emit mlib".to_string()),
            ("inscribe-cli".to_string(), args.clone(), "inscribe-cli emit mlib".to_string()),
            ("cargo".to_string(), cargo, "cargo run -p inscribe-cli -- emit mlib".to_string()),
        ]
    );
    let b = suture::support::emit_attempts(Some("  "), None, &args);
    assert_eq!(b.iter().map(|x| x.program.as_str()).collect::<Vec<_>>(), vec!["inscribe", "inscribe-cli"]);
}

#[test]
fn emit_outcome_cases() {
    assert_eq!(suture::support::emit_outcome(&vec![Err("a".to_string()), Ok(())], true), Ok(()));
    assert_eq!(
        suture::support::emit_outcome(&vec![Err("a".to_string()), Err("b".to_string())], false),
        Err("failed to emit mlib; a; b; could not find inscribe/Cargo.toml for cargo fallback. Set SUTURE_INSCRIBE_BIN to a valid inscribe executable.".to_string())
    );
    assert_eq!(
        suture::support::emit_outcome(&vec![Err("a".to_string())], true),
        Err("failed to emit mlib; a. Set SUTURE_INSCRIBE_BIN to a valid inscribe executable.".to_string())
    );
}

#[test]
fn registry_presence() {
    assert_eq!(suture::commands::spool::registry_present("/r", true), Ok(()));
    assert_eq!(
        suture::commands::spool::registry_present("/r", false),
        Err("spools registry not found at `/r`".to_string())
    );
}

#[test]
fn emit_steps_stop_at_first_success() {
    assert_eq!(next_emit_step(3, &vec![], true), EmitStep::Run(0));
    assert_eq!(next_emit_step(3, &vec![Err("a".to_string())], true), EmitStep::Run(1));
    assert_eq!(next_emit_step(3, &vec![Err("a".to_string()), Ok(())], true), EmitStep::Done(Ok(())));
    assert_eq!(
        next_emit_step(2, &vec![Err("a".to_string()), Err("b".to_string())], false),
        EmitStep::Done(Err("failed to emit mlib; a; b; could not find inscribe/Cargo.toml for cargo fallback. Set SUTURE_INSCRIBE_BIN to a valid inscribe executable.".to_string()))
    );
}
