//! The project layout that the command-line tool works in, and the decisions it takes about a
//! project's spools.
use vstd::prelude::*;

use crate::paths::{join, join_path};
use crate::schema::{
    invalid_manifest_message, model, spec_manifest_toml, spec_parse_manifest, ProjectManifest,
};
use crate::spool_entry::{EntryView, SpoolEntry};
use crate::text::{
    chars_of, join_strings, join_with, opt_str, opt_view, push_str, strings_from, strings_view,
    trim, trim_chars,
};

verus! {

/// The path of the manifest of the project in `dir`.
pub fn manifest_path(dir: &str) -> (r: String)
    ensures
        r@ == join_path(dir@, "suture.toml"@),
{
    ProjectManifest::path_for_dir(dir)
}

/// The manifest of the project in `dir`, given the text of its manifest file where that file
/// exists: an empty manifest where it does not, the parsed manifest where its text is valid,
/// and the error `invalid manifest `path`` otherwise.
pub fn load_manifest(dir: &str, contents: Option<&str>) -> (r: Result<ProjectManifest, String>)
    ensures
        match contents {
            None => r matches Ok(m) && m.wf() && m@.package_name is None
                && m@.package_version is None && m@.dependencies.len() == 0,
            Some(src) => match r {
                Ok(m) => m.wf() && spec_parse_manifest(src@) == Some(model(m@)),
                Err(msg) => spec_parse_manifest(src@) is None && msg@ == invalid_manifest_message(
                    join_path(dir@, "suture.toml"@),
                ),
            },
        },
{
    let path = manifest_path(dir);
    ProjectManifest::read_or_default(path.as_str(), contents)
}

/// Where and what to write to save the manifest of the project in `dir`: the manifest path
/// and the manifest's `suture.toml` text.
pub fn save_manifest(dir: &str, manifest: &ProjectManifest) -> (r: (String, String))
    ensures
        r.0@ == join_path(dir@, "suture.toml"@),
        r.1@ == spec_manifest_toml(manifest@),
{
    (manifest_path(dir), manifest.to_toml())
}

/// The directory of the tool's files in the project in `dir`.
pub fn suture_root(dir: &str) -> (r: String)
    ensures
        r@ == join_path(dir@, ".suture"@),
{
    join(dir, ".suture")
}

/// Where the sources of `name` at `version` are checked out: `.suture/sources/<name>/<version>`.
pub open spec fn spec_source_checkout_dir(dir: Seq<char>, name: Seq<char>, version: Seq<char>) -> Seq<
    char,
> {
    join_path(join_path(join_path(join_path(dir, ".suture"@), "sources"@), name), version)
}

/// Where the sources of `name` at `version` are checked out.
pub fn source_checkout_dir(dir: &str, name: &str, version: &str) -> (r: String)
    ensures
        r@ == spec_source_checkout_dir(dir@, name@, version@),
{
    let p = suture_root(dir);
    let p = join(p.as_str(), "sources");
    let p = join(p.as_str(), name);
    join(p.as_str(), version)
}

/// Where the built library of `name` at `version` goes:
/// `.suture/mlib/<name>/<version>/<name>.mlib`.
pub open spec fn spec_built_mlib_path(dir: Seq<char>, name: Seq<char>, version: Seq<char>) -> Seq<
    char,
> {
    join_path(
        join_path(join_path(join_path(join_path(dir, ".suture"@), "mlib"@), name), version),
        name + ".mlib"@,
    )
}

/// Where the built library of `name` at `version` goes.
pub fn built_mlib_path(dir: &str, name: &str, version: &str) -> (r: String)
    ensures
        r@ == spec_built_mlib_path(dir@, name@, version@),
{
    let p = suture_root(dir);
    let p = join(p.as_str(), "mlib");
    let p = join(p.as_str(), name);
    let p = join(p.as_str(), version);
    let mut file = name.to_owned();
    push_str(&mut file, ".mlib");
    join(p.as_str(), file.as_str())
}

/// The message for a spool version that the index does not hold.
pub open spec fn not_found_message(name: Seq<char>, version: Seq<char>) -> Seq<char> {
    "spool `"@ + name + "` version `"@ + version + "` not found in the index"@
}

/// The entry of `name` at `version`, given what looking it up in the index gave: the entry
/// where it was found, the lookup's error where it failed, and a "not found" error where the
/// index has no such entry.
pub fn find_exact_spool(name: &str, version: &str, found: Result<Option<SpoolEntry>, String>) -> (r:
    Result<SpoolEntry, String>)
    ensures
        match found {
            Ok(Some(e)) => r == Ok::<SpoolEntry, String>(e),
            Ok(None) => r matches Err(msg) && msg@ == not_found_message(name@, version@),
            Err(msg) => r == Err::<SpoolEntry, String>(msg),
        },
{
    match found {
        Ok(Some(e)) => Ok(e),
        Ok(None) => {
            let mut msg = "spool `".to_owned();
            push_str(&mut msg, name);
            push_str(&mut msg, "` version `");
            push_str(&mut msg, version);
            push_str(&mut msg, "` not found in the index");
            Err(msg)
        },
        Err(msg) => Err(msg),
    }
}

/// The git revision to check out for an entry: its revision where set, else its tag.
pub fn checkout_ref(entry: &SpoolEntry) -> (r: Option<String>)
    ensures
        opt_view(r) == if entry@.source_rev is Some {
            entry@.source_rev
        } else {
            entry@.source_tag
        },
{
    match &entry.source_rev {
        Some(rev) => Some(rev.clone()),
        None => match &entry.source_tag {
            Some(tag) => Some(tag.clone()),
            None => None,
        },
    }
}

/// The files that may be an entry's build entry, in the order they are tried, relative to
/// its source checkout: the entry's own `[build] entry` where set, then `lib.mtl`,
/// `src/lib.mtl`, `main.mtl` and `src/main.mtl`.
pub open spec fn spec_build_candidates(e: EntryView) -> Seq<Seq<char>> {
    (match e.build_entry {
        Some(x) => seq![x],
        None => Seq::empty(),
    }) + seq!["lib.mtl"@, "src/lib.mtl"@, "main.mtl"@, "src/main.mtl"@]
}

/// The candidate build entries of `entry`, relative to its source checkout.
pub fn build_entry_candidates(entry: &SpoolEntry) -> (r: Vec<String>)
    ensures
        r@.map_values(|s: String| s@) == spec_build_candidates(entry@),
{
    let mut r: Vec<String> = Vec::new();
    match &entry.build_entry {
        Some(x) => r.push(x.clone()),
        None => {},
    }
    r.push("lib.mtl".to_owned());
    r.push("src/lib.mtl".to_owned());
    r.push("main.mtl".to_owned());
    r.push("src/main.mtl".to_owned());
    assert(r@.map_values(|s: String| s@) =~= spec_build_candidates(entry@));
    r
}

/// The message for an entry with no build entry in its checkout.
pub open spec fn no_build_entry_message(name: Seq<char>) -> Seq<char> {
    "unable to find build entry for `"@ + name + "`; set `[build] entry = \"...\"` in spool.toml"@
}

/// `k` is the first candidate that is present.
pub open spec fn picks_candidate(c: Seq<Seq<char>>, present: Seq<bool>, k: int) -> bool {
    &&& 0 <= k < c.len()
    &&& k < present.len()
    &&& present[k]
    &&& forall|j: int| 0 <= j < k ==> !present[j]
}

/// The build entry of `entry` in its checkout at `source_root`, where `present[i]` tells
/// whether the `i`-th candidate (see [`build_entry_candidates`]) exists there: the first
/// candidate that exists, joined to `source_root`; an error naming the entry where none does.
pub fn resolve_build_entry(entry: &SpoolEntry, source_root: &str, present: &Vec<bool>) -> (r:
    Result<String, String>)
    ensures
        match r {
            Ok(p) => exists|k: int| #[trigger]
                picks_candidate(spec_build_candidates(entry@), present@, k) && p@ == join_path(
                    source_root@,
                    spec_build_candidates(entry@)[k],
                ),
            Err(msg) => (forall|k: int|
                0 <= k < spec_build_candidates(entry@).len() && k < present@.len() ==> !present@[k])
                && msg@ == no_build_entry_message(entry@.name),
        },
{
    let candidates = build_entry_candidates(entry);
    let ghost c = spec_build_candidates(entry@);
    let mut i: usize = 0;
    while i < candidates.len() && i < present.len()
        invariant
            i <= candidates.len(),
            candidates@.map_values(|s: String| s@) == c,
            c == spec_build_candidates(entry@),
            forall|j: int| 0 <= j < i ==> !present@[j],
        decreases candidates.len() - i,
    {
        if present[i] {
            let p = join(source_root, candidates[i].as_str());
            assert(c[i as int] == candidates@[i as int]@);
            assert(c.len() == candidates@.len());
            assert(present@[i as int] && p@ == join_path(source_root@, c[i as int]));
            assert(picks_candidate(c, present@, i as int));
            return Ok(p);
        }
        i = i + 1;
    }
    assert(c.len() == candidates@.len());
    let mut msg = "unable to find build entry for `".to_owned();
    push_str(&mut msg, entry.name.as_str());
    push_str(&mut msg, "`; set `[build] entry = \"...\"` in spool.toml");
    Err(msg)
}

/// The message for a library that no way of running the compiler could build, listing what
/// each way reported, separated by `; `.
pub open spec fn emit_failure_message(failures: Seq<Seq<char>>) -> Seq<char> {
    "failed to emit mlib; "@ + join_with(failures, "; "@)
        + ". Set SUTURE_INSCRIBE_BIN to a valid inscribe executable."@
}

/// The error for a library that no way of running the compiler could build.
pub fn emit_failure(failures: &Vec<String>) -> (r: String)
    ensures
        r@ == emit_failure_message(failures@.map_values(|s: String| s@)),
{
    let mut msg = "failed to emit mlib; ".to_owned();
    let joined = join_strings(failures, "; ");
    push_str(&mut msg, joined.as_str());
    push_str(&mut msg, ". Set SUTURE_INSCRIBE_BIN to a valid inscribe executable.");
    msg
}

/// The cached sources and built libraries of `name` in the project in `dir`:
/// `.suture/sources/<name>` and `.suture/mlib/<name>`.
pub fn cached_spool_dirs(dir: &str, name: &str) -> (r: (String, String))
    ensures
        r.0@ == join_path(join_path(join_path(dir@, ".suture"@), "sources"@), name@),
        r.1@ == join_path(join_path(join_path(dir@, ".suture"@), "mlib"@), name@),
{
    let root = suture_root(dir);
    let sources = join(root.as_str(), "sources");
    let mlibs = join(root.as_str(), "mlib");
    (join(sources.as_str(), name), join(mlibs.as_str(), name))
}

/// The compiler target of the host: `windows-x86_64` on Windows, `linux-x86_64` elsewhere.
pub fn host_target(windows: bool) -> (r: &'static str)
    ensures
        r@ == if windows {
            "windows-x86_64"@
        } else {
            "linux-x86_64"@
        },
{
    if windows {
        "windows-x86_64"
    } else {
        "linux-x86_64"
    }
}

/// The views of a list of argument lists.
pub open spec fn commands_view(cs: Seq<Vec<String>>) -> Seq<Seq<Seq<char>>> {
    cs.map_values(|c: Vec<String>| strings_view(c@))
}

/// How to check out the sources of an entry: whether to remove what is at the destination
/// first, and the git commands (argument lists) to run in order.
#[derive(Debug)]
pub struct SyncPlan {
    pub remove_existing: bool,
    pub commands: Vec<Vec<String>>,
}

/// The git commands that check out the sources of `e` at `dest`: a forced fetch of all
/// branches and tags and a hard reset where `dest` is already a checkout (`has_git`), a
/// clone of its git source otherwise; then a forced checkout of its revision, or else its
/// tag, where it names one.
pub open spec fn spec_sync_commands(e: EntryView, dest: Seq<char>, has_git: bool) -> Seq<
    Seq<Seq<char>>,
> {
    let first = if has_git {
        seq![
            seq!["-C"@, dest, "fetch"@, "--all"@, "--tags"@, "--force"@],
            seq!["-C"@, dest, "reset"@, "--hard"@, "HEAD"@],
        ]
    } else {
        seq![seq!["clone"@, e.source_git, dest]]
    };
    let reference = if e.source_rev is Some {
        e.source_rev
    } else {
        e.source_tag
    };
    match reference {
        Some(x) => first.push(seq!["-C"@, dest, "checkout"@, "--force"@, x]),
        None => first,
    }
}

fn owned(s: &str) -> (r: String)
    ensures
        r@ == s@,
{
    s.to_owned()
}

/// The checkout step does not depend on how the sources got to `dest`: fetched and reset where
/// it is already a checkout (`has_git`), cloned from the entry's git source otherwise, the plan
/// then ends with a forced checkout of the entry's revision where it names one, and else of its
/// tag where it names one; where it names neither, the fetch and reset, or the clone, are all.
pub proof fn lemma_sync_ends_with_checkout(e: EntryView, dest: Seq<char>, has_git: bool)
    ensures
        ({
            let cmds = spec_sync_commands(e, dest, has_git);
            let base: int = if has_git {
                2
            } else {
                1
            };
            &&& !has_git ==> cmds[0] == seq!["clone"@, e.source_git, dest]
            &&& has_git ==> cmds[0] == seq!["-C"@, dest, "fetch"@, "--all"@, "--tags"@, "--force"@]
            &&& e.source_rev is Some ==> cmds.len() == base + 1 && cmds.last() == seq![
                "-C"@,
                dest,
                "checkout"@,
                "--force"@,
                e.source_rev->0,
            ]
            &&& (e.source_rev is None && e.source_tag is Some) ==> cmds.len() == base + 1
                && cmds.last() == seq!["-C"@, dest, "checkout"@, "--force"@, e.source_tag->0]
            &&& (e.source_rev is None && e.source_tag is None) ==> cmds.len() == base
        }),
        e.source_rev is Some || e.source_tag is Some ==> spec_sync_commands(e, dest, true).last()
            == spec_sync_commands(e, dest, false).last(),
{
}

/// How to check out the sources of `entry` at `destination`, given whether `destination` is
/// already a git checkout (`has_git`) and whether it exists: what is there is removed first
/// where it exists but is no checkout.
pub fn sync_plan(entry: &SpoolEntry, destination: &str, has_git: bool, exists: bool) -> (r: SyncPlan)
    ensures
        r.remove_existing == (!has_git && exists),
        commands_view(r.commands@) == spec_sync_commands(entry@, destination@, has_git),
{
    let mut commands: Vec<Vec<String>> = Vec::new();
    if has_git {
        let fetch = vec![
            owned("-C"),
            owned(destination),
            owned("fetch"),
            owned("--all"),
            owned("--tags"),
            owned("--force"),
        ];
        let reset = vec![
            owned("-C"),
            owned(destination),
            owned("reset"),
            owned("--hard"),
            owned("HEAD"),
        ];
        assert(strings_view(fetch@) =~= seq![
            "-C"@,
            destination@,
            "fetch"@,
            "--all"@,
            "--tags"@,
            "--force"@,
        ]);
        assert(strings_view(reset@) =~= seq!["-C"@, destination@, "reset"@, "--hard"@, "HEAD"@]);
        let ghost fv = strings_view(fetch@);
        let ghost rv = strings_view(reset@);
        commands.push(fetch);
        commands.push(reset);
        assert(commands_view(commands@) =~= seq![fv, rv]);
    } else {
        let clone = vec![owned("clone"), entry.source_git.clone(), owned(destination)];
        assert(strings_view(clone@) =~= seq!["clone"@, entry@.source_git, destination@]);
        let ghost clv = strings_view(clone@);
        commands.push(clone);
        assert(commands_view(commands@) =~= seq![clv]);
    }
    let ghost first = commands_view(commands@);
    match checkout_ref(entry) {
        Some(reference) => {
            let checkout = vec![
                owned("-C"),
                owned(destination),
                owned("checkout"),
                owned("--force"),
                reference,
            ];
            let ghost cv = strings_view(checkout@);
            assert(cv =~= seq!["-C"@, destination@, "checkout"@, "--force"@, reference@]);
            commands.push(checkout);
            assert(commands_view(commands@) =~= first.push(cv));
        },
        None => {},
    }
    assert(commands_view(commands@) =~= spec_sync_commands(entry@, destination@, has_git));
    SyncPlan { remove_existing: !has_git && exists, commands }
}

/// The compiler arguments that build the library whose entry is `input` for `target` into
/// `output`.
pub fn emit_args(input: &str, target: &str, output: &str) -> (r: Vec<String>)
    ensures
        strings_view(r@) == seq!["emit"@, "mlib"@, input@, "--target"@, target@, "-o"@, output@],
{
    let r = vec![
        owned("emit"),
        owned("mlib"),
        owned(input),
        owned("--target"),
        owned(target),
        owned("-o"),
        owned(output),
    ];
    assert(strings_view(r@) =~= seq![
        "emit"@,
        "mlib"@,
        input@,
        "--target"@,
        target@,
        "-o"@,
        output@,
    ]);
    r
}

/// The compiler to try first: the `SUTURE_INSCRIBE_BIN` setting, where it is set and not
/// blank.
pub fn inscribe_override(value: Option<&str>) -> (r: Option<String>)
    ensures
        match value {
            Some(v) => if trim(v@).len() > 0 {
                r matches Some(x) && x@ == v@
            } else {
                r is None
            },
            None => r is None,
        },
{
    match value {
        Some(v) => {
            let c = chars_of(v);
            let t = trim_chars(&c);
            if t.len() > 0 {
                Some(owned(v))
            } else {
                None
            }
        },
        None => None,
    }
}

/// One way of running the compiler: the program, its arguments, and the label that its
/// errors carry.
#[derive(Debug)]
pub struct EmitAttempt {
    pub program: String,
    pub args: Vec<String>,
    pub label: String,
}

/// The mathematical value of an [`EmitAttempt`].
pub open spec fn attempt_view(a: EmitAttempt) -> (Seq<char>, Seq<Seq<char>>, Seq<char>) {
    (a.program@, strings_view(a.args@), a.label@)
}

/// The views of a list of attempts.
pub open spec fn attempts_view(s: Seq<EmitAttempt>) -> Seq<(Seq<char>, Seq<Seq<char>>, Seq<char>)> {
    s.map_values(|a: EmitAttempt| attempt_view(a))
}

/// The arguments of `cargo` that run the compiler from its own manifest.
pub open spec fn cargo_args(manifest: Seq<char>, args: Seq<Seq<char>>) -> Seq<Seq<char>> {
    seq!["run"@, "--manifest-path"@, manifest, "-p"@, "inscribe-cli"@, "--"@] + args
}

/// The ways of running the compiler with `args`, in the order they are tried: the
/// `SUTURE_INSCRIBE_BIN` program where that setting is set and not blank, `inscribe`,
/// `inscribe-cli`, and `cargo run` on the compiler's own manifest where one was found.
pub open spec fn spec_emit_attempts(
    override_bin: Option<Seq<char>>,
    cargo_manifest: Option<Seq<char>>,
    args: Seq<Seq<char>>,
) -> Seq<(Seq<char>, Seq<Seq<char>>, Seq<char>)> {
    let first = if override_bin is Some && trim(override_bin->0).len() > 0 {
        seq![(override_bin->0, args, "inscribe emit mlib"@)]
    } else {
        Seq::empty()
    };
    let standard = first + seq![
        ("inscribe"@, args, "inscribe emit mlib"@),
        ("inscribe-cli"@, args, "inscribe-cli emit mlib"@),
    ];
    match cargo_manifest {
        Some(m) => standard.push(
            ("cargo"@, cargo_args(m, args), "cargo run -p inscribe-cli -- emit mlib"@),
        ),
        None => standard,
    }
}

fn attempt(program: &str, args: &Vec<String>, label: &str) -> (r: EmitAttempt)
    ensures
        attempt_view(r) == (program@, strings_view(args@), label@),
{
    let copied = strings_from(args, 0);
    assert(strings_view(args@).skip(0) =~= strings_view(args@));
    EmitAttempt { program: owned(program), args: copied, label: owned(label) }
}

/// The ways of running the compiler with `args`, in order (see [`spec_emit_attempts`]).
pub fn emit_attempts(override_bin: Option<&str>, cargo_manifest: Option<&str>, args: &Vec<String>) -> (r:
    Vec<EmitAttempt>)
    ensures
        attempts_view(r@) == spec_emit_attempts(
            opt_str(override_bin),
            opt_str(cargo_manifest),
            strings_view(args@),
        ),
{
    let mut r: Vec<EmitAttempt> = Vec::new();
    match inscribe_override(override_bin) {
        Some(bin) => r.push(attempt(bin.as_str(), args, "inscribe emit mlib")),
        None => {},
    }
    r.push(attempt("inscribe", args, "inscribe emit mlib"));
    r.push(attempt("inscribe-cli", args, "inscribe-cli emit mlib"));
    let ghost standard = attempts_view(r@);
    match cargo_manifest {
        Some(m) => {
            let mut cargo: Vec<String> = vec![
                owned("run"),
                owned("--manifest-path"),
                owned(m),
                owned("-p"),
                owned("inscribe-cli"),
                owned("--"),
            ];
            let ghost head = strings_view(cargo@);
            assert(head =~= seq!["run"@, "--manifest-path"@, m@, "-p"@, "inscribe-cli"@, "--"@]);
            let mut i: usize = 0;
            while i < args.len()
                invariant
                    i <= args.len(),
                    strings_view(cargo@) == head + strings_view(args@).take(i as int),
                decreases args.len() - i,
            {
                let ghost before = cargo@;
                let a = args[i].clone();
                cargo.push(a);
                assert(strings_view(cargo@) =~= strings_view(before).push(args@[i as int]@));
                assert(strings_view(args@).take(i + 1) =~= strings_view(args@).take(i as int).push(
                    args@[i as int]@,
                ));
                i = i + 1;
            }
            assert(strings_view(args@).take(args.len() as int) =~= strings_view(args@));
            let a = EmitAttempt {
                program: owned("cargo"),
                args: cargo,
                label: owned("cargo run -p inscribe-cli -- emit mlib"),
            };
            let ghost av = attempt_view(a);
            r.push(a);
            assert(attempts_view(r@) =~= standard.push(av));
        },
        None => {},
    }
    assert(attempts_view(r@) =~= spec_emit_attempts(
        opt_str(override_bin),
        opt_str(cargo_manifest),
        strings_view(args@),
    ));
    r
}

/// The views of the outcomes of running the compiler.
pub open spec fn results_view(rs: Seq<Result<(), String>>) -> Seq<Result<(), Seq<char>>> {
    rs.map_values(
        |x: Result<(), String>|
            match x {
                Ok(()) => Ok(()),
                Err(e) => Err(e@),
            },
    )
}

/// The errors among some outcomes, in order.
pub open spec fn errors_of(rs: Seq<Result<(), Seq<char>>>) -> Seq<Seq<char>>
    decreases rs.len(),
{
    if rs.len() == 0 {
        Seq::empty()
    } else {
        let rest = errors_of(rs.drop_last());
        match rs.last() {
            Ok(()) => rest,
            Err(e) => rest.push(e),
        }
    }
}

/// The message for a build with no compiler manifest to fall back on.
pub open spec fn no_cargo_fallback_message() -> Seq<char> {
    "could not find inscribe/Cargo.toml for cargo fallback"@
}

/// The outcome of building a library from the outcomes of the ways of running the compiler
/// that were tried: success where one succeeded; otherwise the error that lists each
/// failure, followed by a note where no compiler manifest was found for the `cargo` fallback.
pub open spec fn spec_emit_outcome(results: Seq<Result<(), Seq<char>>>, cargo_found: bool) -> Result<
    (),
    Seq<char>,
> {
    if exists|i: int| 0 <= i < results.len() && #[trigger] results[i] is Ok {
        Ok(())
    } else {
        Err(
            emit_failure_message(
                if cargo_found {
                    errors_of(results)
                } else {
                    errors_of(results).push(no_cargo_fallback_message())
                },
            ),
        )
    }
}

/// The outcome of building a library (see [`spec_emit_outcome`]).
pub fn emit_outcome(results: &Vec<Result<(), String>>, cargo_found: bool) -> (r: Result<(), String>)
    ensures
        match r {
            Ok(()) => spec_emit_outcome(results_view(results@), cargo_found) == Ok::<(), Seq<char>>(()),
            Err(e) => spec_emit_outcome(results_view(results@), cargo_found) == Err::<(), Seq<char>>(e@),
        },
{
    let ghost rv = results_view(results@);
    let mut failures: Vec<String> = Vec::new();
    let mut i: usize = 0;
    while i < results.len()
        invariant
            i <= results.len(),
            rv == results_view(results@),
            forall|j: int| 0 <= j < i ==> !(#[trigger] rv[j] is Ok),
            strings_view(failures@) == errors_of(rv.take(i as int)),
        decreases results.len() - i,
    {
        assert(rv.take(i + 1).drop_last() =~= rv.take(i as int));
        assert(rv.take(i + 1).last() == rv[i as int]);
        match &results[i] {
            Ok(()) => {
                assert(rv[i as int] is Ok);
                return Ok(());
            },
            Err(e) => {
                let ghost before = failures@;
                failures.push(e.clone());
                assert(strings_view(failures@) =~= strings_view(before).push(e@));
            },
        }
        i = i + 1;
    }
    assert(rv.take(results.len() as int) =~= rv);
    if !cargo_found {
        let ghost before = failures@;
        failures.push(owned("could not find inscribe/Cargo.toml for cargo fallback"));
        assert(strings_view(failures@) =~= strings_view(before).push(no_cargo_fallback_message()));
    }
    let msg = emit_failure(&failures);
    assert(failures@.map_values(|s: String| s@) =~= strings_view(failures@));
    Err(msg)
}

/// What to do next while building a library.
#[derive(Debug, PartialEq, Eq)]
pub enum EmitStep {
    /// Run the attempt at this position of the list that [`emit_attempts`] gives.
    Run(usize),
    /// The build is over, with this outcome.
    Done(Result<(), String>),
}

/// Some outcome is a success.
pub open spec fn any_succeeded(results: Seq<Result<(), Seq<char>>>) -> bool {
    exists|i: int| 0 <= i < results.len() && #[trigger] results[i] is Ok
}

/// What to do next while building a library with `attempts` ways of running the compiler,
/// given the outcomes of the attempts run so far, in order: the build is over with success
/// once one succeeded, so no later attempt runs; while only failures came back and
/// attempts remain, the next one runs; once all have failed, the build is over with the
/// error of [`spec_emit_outcome`].
pub fn next_emit_step(attempts: usize, results: &Vec<Result<(), String>>, cargo_found: bool) -> (r:
    EmitStep)
    ensures
        any_succeeded(results_view(results@)) ==> r == EmitStep::Done(Ok(())),
        !any_succeeded(results_view(results@)) && results.len() < attempts ==> r == EmitStep::Run(
            results.len(),
        ),
        !any_succeeded(results_view(results@)) && results.len() >= attempts ==> (r matches EmitStep::Done(
            Err(e),
        ) && spec_emit_outcome(results_view(results@), cargo_found) == Err::<(), Seq<char>>(e@)),
{
    let ghost rv = results_view(results@);
    let mut i: usize = 0;
    while i < results.len()
        invariant
            i <= results.len(),
            rv == results_view(results@),
            forall|j: int| 0 <= j < i ==> !(#[trigger] rv[j] is Ok),
        decreases results.len() - i,
    {
        if results[i].is_ok() {
            assert(rv[i as int] is Ok);
            return EmitStep::Done(Ok(()));
        }
        i = i + 1;
    }
    assert(!any_succeeded(rv));
    if results.len() < attempts {
        EmitStep::Run(results.len())
    } else {
        EmitStep::Done(emit_outcome(results, cargo_found))
    }
}

} // verus!
