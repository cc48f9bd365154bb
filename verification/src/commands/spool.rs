//! `suture spool`: add an entry to the local registry index, or list the index.
use vstd::prelude::*;

use crate::paths::{join, join_path};
use crate::spool_entry::{EntryView, SpoolEntry};
use crate::text::{
    chars_eq_str, chars_of, join_strs, join_with, opt_view, push_str, strings_from, strings_view,
    trim, trim_string, trim_version, version_arg,
};

verus! {

/// The lines of the usage text of `suture spool`.
pub open spec fn usage_lines() -> Seq<Seq<char>> {
    seq![
        "usage:"@,
        "  suture spool add <name> <version> <git-url> [--tag <tag>] [--summary <text>] [--entry <path>]"@,
        "  suture spool list"@,
    ]
}

/// The usage text of `suture spool`.
pub open spec fn spec_usage() -> Seq<char> {
    join_with(usage_lines(), "\n"@)
}

/// The usage text of `suture spool`.
pub fn usage() -> (r: String)
    ensures
        r@ == spec_usage(),
{
    let lines: Vec<&str> = vec![
        "usage:",
        "  suture spool add <name> <version> <git-url> [--tag <tag>] [--summary <text>] [--entry <path>]",
        "  suture spool list",
    ];
    assert(lines@.map_values(|p: &str| p@) =~= usage_lines());
    join_strs(&lines, "\n")
}

/// A `suture spool` command.
#[derive(Debug)]
pub enum SpoolCommand {
    /// Write this entry into the local registry index.
    Add { entry: SpoolEntry },
    List,
}

/// The mathematical value of a [`SpoolCommand`].
pub enum SpoolPlan {
    Add { entry: EntryView },
    List,
}

impl View for SpoolCommand {
    type V = SpoolPlan;

    open spec fn view(&self) -> SpoolPlan {
        match self {
            SpoolCommand::Add { entry } => SpoolPlan::Add { entry: entry@ },
            SpoolCommand::List => SpoolPlan::List,
        }
    }
}

/// The settings that the flags of `suture spool add` give.
pub struct AddFlags {
    pub tag: Option<Seq<char>>,
    pub summary: Option<Seq<char>>,
    pub entry: Option<Seq<char>>,
}

/// The flags of `suture spool add` from position `i` on: each of `--tag`, `--summary` and
/// `--entry` takes the next argument, trimmed, as its value, and the last one given counts.
pub open spec fn add_flags(args: Seq<Seq<char>>, i: int, f: AddFlags) -> Result<AddFlags, Seq<char>>
    decreases args.len() - i,
{
    if i < 0 || i >= args.len() {
        Ok(f)
    } else {
        let a = args[i];
        if a == "--tag"@ || a == "--summary"@ || a == "--entry"@ {
            if i + 1 < args.len() {
                let v = trim(args[i + 1]);
                let g = if a == "--tag"@ {
                    AddFlags { tag: Some(v), ..f }
                } else if a == "--summary"@ {
                    AddFlags { summary: Some(v), ..f }
                } else {
                    AddFlags { entry: Some(v), ..f }
                };
                add_flags(args, i + 2, g)
            } else {
                Err("missing value after "@ + a)
            }
        } else {
            Err("unknown flag `"@ + a + "`"@)
        }
    }
}

/// The entry that `suture spool add` writes: the given name, version and git url, with the
/// tag, summary and build entry that its flags set, and nothing else.
pub open spec fn added_entry(
    name: Seq<char>,
    version: Seq<char>,
    git: Seq<char>,
    f: AddFlags,
) -> EntryView {
    EntryView {
        name,
        version,
        summary: f.summary,
        source_git: git,
        source_tag: f.tag,
        source_rev: None,
        build_entry: f.entry,
        dependencies: Seq::empty(),
        dev_dependencies: Seq::empty(),
        artifacts: Seq::empty(),
    }
}

/// What `suture spool add` was given: a name, version and git url (trimmed, the version
/// without leading `v`s, none of them empty) and its flags.
pub open spec fn spec_add_args(args: Seq<Seq<char>>) -> Result<SpoolPlan, Seq<char>> {
    if args.len() < 3 {
        Err(spec_usage())
    } else {
        let name = trim(args[0]);
        let version = version_arg(args[1]);
        let git = trim(args[2]);
        if name.len() == 0 || version.len() == 0 || git.len() == 0 {
            Err("name, version, and git url are required"@)
        } else {
            match add_flags(args, 3, AddFlags { tag: None, summary: None, entry: None }) {
                Ok(f) => Ok(SpoolPlan::Add { entry: added_entry(name, version, git, f) }),
                Err(e) => Err(e),
            }
        }
    }
}

/// The `suture spool` command that a command line (after `spool`) asks for.
pub open spec fn spec_spool_command(args: Seq<Seq<char>>) -> Result<SpoolPlan, Seq<char>> {
    if args.len() == 0 {
        Err(spec_usage())
    } else if args[0] == "add"@ {
        spec_add_args(args.drop_first())
    } else if args[0] == "list"@ {
        Ok(SpoolPlan::List)
    } else {
        Err("unknown spool command `"@ + args[0] + "`\n\n"@ + spec_usage())
    }
}

/// The flags of `suture spool add`, as exec values.
struct AddFlagValues {
    tag: Option<String>,
    summary: Option<String>,
    entry: Option<String>,
}

spec fn add_flag_values_view(f: AddFlagValues) -> AddFlags {
    AddFlags { tag: opt_view(f.tag), summary: opt_view(f.summary), entry: opt_view(f.entry) }
}

/// The flags of `suture spool add`.
fn parse_add_flags(args: &Vec<String>) -> (r: Result<AddFlagValues, String>)
    requires
        args.len() >= 3,
    ensures
        match r {
            Ok(f) => add_flags(
                strings_view(args@),
                3,
                AddFlags { tag: None, summary: None, entry: None },
            ) == Ok::<AddFlags, Seq<char>>(add_flag_values_view(f)),
            Err(e) => add_flags(
                strings_view(args@),
                3,
                AddFlags { tag: None, summary: None, entry: None },
            ) == Err::<AddFlags, Seq<char>>(e@),
        },
{
    let ghost sv = strings_view(args@);
    let ghost f0 = AddFlags { tag: None, summary: None, entry: None };
    let mut f = AddFlagValues { tag: None, summary: None, entry: None };
    let mut i: usize = 3;
    while i < args.len()
        invariant
            3 <= i,
            sv == strings_view(args@),
            f0 == (AddFlags { tag: None, summary: None, entry: None }),
            add_flags(sv, 3, f0) == add_flags(sv, i as int, add_flag_values_view(f)),
        decreases args.len() - i,
    {
        assert(sv[i as int] == args@[i as int]@);
        let a = chars_of(args[i].as_str());
        let is_tag = chars_eq_str(&a, "--tag");
        let is_summary = chars_eq_str(&a, "--summary");
        let is_entry = chars_eq_str(&a, "--entry");
        if is_tag || is_summary || is_entry {
            if i + 1 < args.len() {
                assert(sv[i + 1] == args@[i + 1]@);
                let v = trim_string(args[i + 1].as_str());
                if is_tag {
                    f.tag = Some(v);
                } else if is_summary {
                    f.summary = Some(v);
                } else {
                    f.entry = Some(v);
                }
                i = i + 2;
            } else {
                let mut m = "missing value after ".to_owned();
                push_str(&mut m, args[i].as_str());
                return Err(m);
            }
        } else {
            let mut m = "unknown flag `".to_owned();
            push_str(&mut m, args[i].as_str());
            push_str(&mut m, "`");
            return Err(m);
        }
    }
    Ok(f)
}

/// What `suture spool add` was given (see [`spec_add_args`]).
pub fn parse_add_args(args: &Vec<String>) -> (r: Result<SpoolCommand, String>)
    ensures
        match r {
            Ok(c) => spec_add_args(strings_view(args@)) == Ok::<SpoolPlan, Seq<char>>(c@),
            Err(e) => spec_add_args(strings_view(args@)) == Err::<SpoolPlan, Seq<char>>(e@),
        },
{
    let ghost sv = strings_view(args@);
    if args.len() < 3 {
        return Err(usage());
    }
    assert(sv[0] == args@[0]@);
    assert(sv[1] == args@[1]@);
    assert(sv[2] == args@[2]@);
    let name = trim_string(args[0].as_str());
    let version = trim_version(args[1].as_str());
    let git = trim_string(args[2].as_str());
    if name.as_str().is_empty() || version.as_str().is_empty() || git.as_str().is_empty() {
        return Err("name, version, and git url are required".to_owned());
    }
    match parse_add_flags(args) {
        Ok(f) => {
            let tag: Option<&str> = match &f.tag {
                Some(t) => Some(t.as_str()),
                None => None,
            };
            let mut entry = SpoolEntry::from_parts(
                name.as_str(),
                version.as_str(),
                git.as_str(),
                tag,
            );
            entry.summary = f.summary;
            entry.build_entry = f.entry;
            let ghost fv = add_flag_values_view(f);
            assert(entry@ == added_entry(name@, version@, git@, fv));
            Ok(SpoolCommand::Add { entry })
        },
        Err(e) => Err(e),
    }
}

/// The `suture spool` command that a command line (after `spool`) asks for.
pub fn run(args: &Vec<String>) -> (r: Result<SpoolCommand, String>)
    ensures
        match r {
            Ok(c) => spec_spool_command(strings_view(args@)) == Ok::<SpoolPlan, Seq<char>>(c@),
            Err(e) => spec_spool_command(strings_view(args@)) == Err::<SpoolPlan, Seq<char>>(e@),
        },
{
    if args.len() == 0 {
        return Err(usage());
    }
    let ghost sv = strings_view(args@);
    assert(sv[0] == args@[0]@);
    let c = chars_of(args[0].as_str());
    if chars_eq_str(&c, "add") {
        let rest = strings_from(args, 1);
        assert(sv.skip(1) =~= sv.drop_first());
        return parse_add_args(&rest);
    }
    if chars_eq_str(&c, "list") {
        return Ok(SpoolCommand::List);
    }
    let mut m = "unknown spool command `".to_owned();
    push_str(&mut m, args[0].as_str());
    push_str(&mut m, "`\n\n");
    let u = usage();
    push_str(&mut m, u.as_str());
    Err(m)
}

/// Where `suture spool add` writes an entry in the index at `root`: the directory
/// `root/entries/<name>/<version>` and the file `spool.toml` in it.
pub fn entry_location(root: &str, name: &str, version: &str) -> (r: (String, String))
    ensures
        r.0@ == join_path(join_path(join_path(root@, "entries"@), name@), version@),
        r.1@ == join_path(r.0@, "spool.toml"@),
{
    let p = join(root, "entries");
    let p = join(p.as_str(), name);
    let dir = join(p.as_str(), version);
    let file = join(dir.as_str(), "spool.toml");
    (dir, file)
}

/// Whether the registry index at `root` is there for `suture spool add` to write into; an
/// error naming it where it does not exist.
pub fn registry_present(root: &str, exists: bool) -> (r: Result<(), String>)
    ensures
        match r {
            Ok(()) => exists,
            Err(e) => !exists && e@ == "spools registry not found at `"@ + root@ + "`"@,
        },
{
    if exists {
        Ok(())
    } else {
        let mut m = "spools registry not found at `".to_owned();
        push_str(&mut m, root);
        push_str(&mut m, "`");
        Err(m)
    }
}

} // verus!
