use suture::commands::publish::{
    api_error_message, build_toml_comment, comment_payload, comment_target, comment_url, escape_json,
    escape_value, looks_like_spool_file, PublishRequest,
};
use suture::commands::spool::SpoolCommand;
use suture::commands::{add, audit, dispatch, publish, pull, remove, spool, usage, CommandKind};
use suture::schema::ProjectManifest;

fn args(list: &[&str]) -> Vec<String> {
    list.iter().map(|s| s.to_string()).collect()
}

const USAGE: &str = "usage:\n  suture add <spool> <version>\n  suture remove <spool>\n  suture pull\n  suture publish <spool.toml> [--rate <minutes>]\n  suture publish <name> <version> <git-url> [--tag <tag>] [--summary <text>] [--entry <path>] [--rate <minutes>]\n  suture spool add <name> <version> <git-url> [--tag <tag>] [--summary <text>] [--entry <path>]\n  suture spool list\n  suture audit";

#[test]
fn usage_text() {
    assert_eq!(usage(), USAGE);
}

#[test]
fn dispatch_picks_the_command() {
    assert_eq!(dispatch(&args(&["add", "x", "1"])), Ok((CommandKind::Add, args(&["x", "1"]))));
    assert_eq!(dispatch(&args(&["remove", "x"])), Ok((CommandKind::Remove, args(&["x"]))));
    assert_eq!(dispatch(&args(&["pull"])), Ok((CommandKind::Pull, vec![])));
    assert_eq!(dispatch(&args(&["publish", "a"])), Ok((CommandKind::Publish, args(&["a"]))));
    assert_eq!(dispatch(&args(&["spool", "list"])), Ok((CommandKind::Spool, args(&["list"]))));
    assert_eq!(dispatch(&args(&["audit"])), Ok((CommandKind::Audit, vec![])));
}

#[test]
fn dispatch_errors() {
    assert_eq!(dispatch(&vec![]), Err(USAGE.to_string()));
    assert_eq!(dispatch(&args(&["help"])), Err(USAGE.to_string()));
    assert_eq!(dispatch(&args(&["--help"])), Err(USAGE.to_string()));
    assert_eq!(dispatch(&args(&["-h"])), Err(USAGE.to_string()));
    assert_eq!(dispatch(&args(&["frob"])), Err(format!("unknown command `frob`\n\n{USAGE}")));
}

#[test]
fn add_arguments() {
    assert_eq!(add::parse_args(&args(&[" core ", " vv1.2 "])), Ok(("core".to_string(), "1.2".to_string())));
    assert_eq!(add::parse_args(&args(&["core"])), Err("usage: suture add <spool> <version>".to_string()));
    assert_eq!(add::parse_args(&args(&["core", "v"])), Err("spool name and version are required".to_string()));
    assert_eq!(add::parse_args(&args(&["  ", "1"])), Err("spool name and version are required".to_string()));
}

#[test]
fn remove_arguments_and_manifest_update() {
    assert_eq!(remove::parse_args(&args(&[" core "])), Ok("core".to_string()));
    assert_eq!(remove::parse_args(&args(&[])), Err("usage: suture remove <spool>".to_string()));
    assert_eq!(remove::parse_args(&args(&[" "])), Err("spool name cannot be empty".to_string()));
    let mut m = ProjectManifest::default();
    m.set_dependency("core".to_string(), "1".to_string());
    assert_eq!(remove::remove_from_manifest(&mut m, "core"), Ok(()));
    assert_eq!(
        remove::remove_from_manifest(&mut m, "core"),
        Err("spool `core` is not in suture.toml".to_string())
    );
}

#[test]
fn pull_and_audit_take_no_arguments() {
    assert_eq!(pull::parse_args(&vec![]), Ok(()));
    assert_eq!(pull::parse_args(&args(&["x"])), Err("usage: suture pull".to_string()));
    assert_eq!(audit::parse_args(&vec![]), Ok(()));
    assert_eq!(audit::parse_args(&args(&["x"])), Err("usage: suture audit".to_string()));
}

#[test]
fn audit_outcome_counts_issues() {
    assert_eq!(audit::outcome(&vec![]), Ok(()));
    assert_eq!(audit::outcome(&args(&["a", "b", "c"])), Err("audit failed with 3 issue(s)".to_string()));
    let many: Vec<String> = (0..12).map(|i| i.to_string()).collect();
    assert_eq!(audit::outcome(&many), Err("audit failed with 12 issue(s)".to_string()));
}

#[test]
fn publish_file_request() {
    match publish::parse_args(&args(&["spool.toml"]), false).unwrap() {
        PublishRequest::File { path, rate_limit } => {
            assert_eq!(path, "spool.toml");
            assert_eq!(rate_limit, "2");
        }
        other => panic!("unexpected {other:?}"),
    }
    match publish::parse_args(&args(&["entry", "--rate", " 5 ", "--rate", "7"]), true).unwrap() {
        PublishRequest::File { path, rate_limit } => {
            assert_eq!(path, "entry");
            assert_eq!(rate_limit, "7");
        }
        other => panic!("unexpected {other:?}"),
    }
    assert_eq!(
        publish::parse_args(&args(&["a.toml", "--rate"]), false).unwrap_err(),
        "missing value after --rate"
    );
    assert_eq!(publish::parse_args(&args(&["a.toml", "--tag", "x"]), false).unwrap_err(), "unknown flag `--tag`");
}

#[test]
fn publish_parts_request() {
    let req = publish::parse_args(
        &args(&[" demo ", "v1.0", " https://g ", "--tag", " v1.0 ", "--summary", " hi ", "--entry", "main.mtl", "--rate", "3"]),
        false,
    )
    .unwrap();
    match req {
        PublishRequest::Parts { entry, rate_limit } => {
            assert_eq!(entry.name, "demo");
            assert_eq!(entry.version, "1.0");
            assert_eq!(entry.source_git, "https://g");
            assert_eq!(entry.source_tag, Some("v1.0".to_string()));
            assert_eq!(entry.summary, Some("hi".to_string()));
            assert_eq!(entry.build_entry, Some("main.mtl".to_string()));
            assert_eq!(entry.source_rev, None);
            assert_eq!(rate_limit, "3");
        }
        other => panic!("unexpected {other:?}"),
    }
}

#[test]
fn publish_errors() {
    let usage = "usage:\n  suture publish <spool.toml> [--rate <minutes>]\n  suture publish <name> <version> <git-url> [--tag <tag>] [--summary <text>] [--entry <path>] [--rate <minutes>]\nenv:\n  SUTURE_SPOOLS_REPO (default MentalogueLang/Spools-Index)\n  SUTURE_SPOOLS_ISSUE (default 1)\n  SUTURE_SPOOLS_TOKEN (or GH_TOKEN/GITHUB_TOKEN)";
    assert_eq!(publish::usage(), usage);
    assert_eq!(publish::parse_args(&vec![], false).unwrap_err(), usage);
    assert_eq!(publish::parse_args(&args(&["a", "b"]), false).unwrap_err(), usage);
    assert_eq!(
        publish::parse_args(&args(&["a", "v", "g"]), false).unwrap_err(),
        "name, version, and git url are required"
    );
    assert_eq!(publish::parse_args(&args(&["a", "1", "g", "--summary"]), false).unwrap_err(), "missing value after --summary");
    assert_eq!(publish::parse_args(&args(&["a", "1", "g", "--bogus", "x"]), false).unwrap_err(), "unknown flag `--bogus`");
}

#[test]
fn spool_file_detection() {
    assert!(looks_like_spool_file("x.toml", false));
    assert!(looks_like_spool_file("dir", true));
    assert!(!looks_like_spool_file("name", false));
}

#[test]
fn toml_comment_and_escapes() {
    assert_eq!(
        build_toml_comment("[package]\nname = \"a\"\n\n", "5\"x"),
        "/spool-upload-toml rate_limit_minutes=5\\\"x\n```toml\n[package]\nname = \"a\"\n```"
    );
    assert_eq!(escape_value("a\\b\"c"), "a\\\\b\\\"c");
    assert_eq!(escape_json("a\\b\"c\nd"), "a\\\\b\\\"c\\nd");
}

#[test]
fn github_request_parts() {
    assert_eq!(comment_url("o/r", "7"), "https://api.github.com/repos/o/r/issues/7/comments");
    assert_eq!(comment_payload("hi \"x\"\n"), "{\"body\":\"hi \\\"x\\\"\\n\"}");
    assert_eq!(api_error_message(404), "github api error (status 404)");
    assert_eq!(api_error_message(0), "github api error (status 0)");
    let t = comment_target(None, None, None, Some("gt"), Some("gh")).unwrap();
    assert_eq!((t.repo.as_str(), t.issue.as_str(), t.token.as_str()), ("MentalogueLang/Spools-Index", "1", "gt"));
    let t = comment_target(Some("a/b"), Some("9"), Some("st"), Some("gt"), None).unwrap();
    assert_eq!((t.repo.as_str(), t.issue.as_str(), t.token.as_str()), ("a/b", "9", "st"));
    let t = comment_target(None, None, None, None, Some("gh")).unwrap();
    assert_eq!(t.token, "gh");
    assert_eq!(
        comment_target(None, None, None, None, None).unwrap_err(),
        "missing token; set SUTURE_SPOOLS_TOKEN or GH_TOKEN"
    );
}

#[test]
fn spool_subcommands() {
    let usage = "usage:\n  suture spool add <name> <version> <git-url> [--tag <tag>] [--summary <text>] [--entry <path>]\n  suture spool list";
    assert_eq!(spool::usage(), usage);
    assert_eq!(spool::run(&vec![]).unwrap_err(), usage);
    assert!(matches!(spool::run(&args(&["list"])), Ok(SpoolCommand::List)));
    assert_eq!(spool::run(&args(&["nope"])).unwrap_err(), format!("unknown spool command `nope`\n\n{usage}"));
    match spool::run(&args(&["add", " n ", "v2", "g", "--tag", "t1", "--tag", " t2 "])).unwrap() {
        SpoolCommand::Add { entry } => {
            let mut expected = suture::spool_entry::SpoolEntry::from_parts("n", "2", "g", Some("t2"));
            assert_eq!(entry, expected);
            expected.summary = None;
            assert_eq!(entry.summary, None);
        }
        other => panic!("unexpected {other:?}"),
    }
    match spool::run(&args(&["add", "foo", "1.0.0", "g", "--summary", " S ", "--entry", "src/x.mtl"])).unwrap() {
        SpoolCommand::Add { entry } => {
            let mut expected = suture::spool_entry::SpoolEntry::from_parts("foo", "1.0.0", "g", None);
            expected.summary = Some("S".to_string());
            expected.build_entry = Some("src/x.mtl".to_string());
            assert_eq!(entry, expected);
        }
        other => panic!("unexpected {other:?}"),
    }
    assert_eq!(spool::run(&args(&["add", "n", "1", "g", "--entry"])).unwrap_err(), "missing value after --entry");
    assert_eq!(spool::run(&args(&["add", "n", "1", "g", "--rate", "3"])).unwrap_err(), "unknown flag `--rate`");
    assert_eq!(spool::run(&args(&["add", "n", "1"])).unwrap_err(), usage);
    assert_eq!(spool::run(&args(&["add", "n", "1", "g", "--tag"])).unwrap_err(), "missing value after --tag");
    assert_eq!(spool::run(&args(&["add", "n", "1", "g", "--x"])).unwrap_err(), "unknown flag `--x`");
    assert_eq!(spool::run(&args(&["add", "n", " ", "g"])).unwrap_err(), "name, version, and git url are required");
    assert_eq!(
        spool::entry_location("/r", "n", "1"),
        ("/r/entries/n/1".to_string(), "/r/entries/n/1/spool.toml".to_string())
    );
}

#[test]
fn audit_dependency_report() {
    let e = suture::spool_entry::SpoolEntry::from_parts("core", "1.0", "g", None);
    let (passed, failed) = audit::dependency_report(&e, "/s", true, Ok("/s/lib.mtl".to_string()), "/m", true);
    assert_eq!(passed, args(&["ok index core 1.0", "ok source /s", "ok entry /s/lib.mtl", "ok mlib /m"]));
    assert!(failed.is_empty());
    let (passed, failed) = audit::dependency_report(&e, "/s", false, Err("no entry".to_string()), "/m", false);
    assert_eq!(passed, args(&["ok index core 1.0"]));
    assert_eq!(
        failed,
        args(&["missing source checkout for core 1.0 at /s", "no entry", "missing mlib for core 1.0 at /m"])
    );
}

#[test]
fn github_request_headers() {
    assert_eq!(
        suture::commands::publish::comment_headers("tok"),
        vec![
            ("Accept".to_string(), "application/vnd.github+json".to_string()),
            ("User-Agent".to_string(), "suture-cli".to_string()),
            ("Authorization".to_string(), "Bearer tok".to_string()),
        ]
    );
}

#[test]
fn escape_json_leaves_no_line_break() {
    let e = escape_json("line one\nline \"two\"\\");
    assert!(!e.contains('\n'));
    assert_eq!(e, "line one\\nline \\\"two\\\"\\\\");
}
