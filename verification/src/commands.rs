//! The commands of the `suture` tool: which command a command line asks for, and the usage
//! text.
use vstd::prelude::*;

pub mod add;
pub mod audit;
pub mod publish;
pub mod pull;
pub mod remove;
pub mod spool;

use crate::text::{
    chars_eq_str, chars_of, join_strs, join_with, push_str, strings_from, strings_view,
};

verus! {

/// The commands of the tool.
#[derive(Debug, Clone, Copy, PartialEq, Eq)]
pub enum CommandKind {
    Add,
    Remove,
    Pull,
    Publish,
    Spool,
    Audit,
}

/// The lines of the tool's usage text.
pub open spec fn usage_lines() -> Seq<Seq<char>> {
    seq![
        "usage:"@,
        "  suture add <spool> <version>"@,
        "  suture remove <spool>"@,
        "  suture pull"@,
        "  suture publish <spool.toml> [--rate <minutes>]"@,
        "  suture publish <name> <version> <git-url> [--tag <tag>] [--summary <text>] [--entry <path>] [--rate <minutes>]"@,
        "  suture spool add <name> <version> <git-url> [--tag <tag>] [--summary <text>] [--entry <path>]"@,
        "  suture spool list"@,
        "  suture audit"@,
    ]
}

/// The tool's usage text: its lines joined by line breaks.
pub open spec fn spec_usage() -> Seq<char> {
    join_with(usage_lines(), "\n"@)
}

/// The tool's usage text.
pub fn usage() -> (r: String)
    ensures
        r@ == spec_usage(),
{
    let lines: Vec<&str> = vec![
        "usage:",
        "  suture add <spool> <version>",
        "  suture remove <spool>",
        "  suture pull",
        "  suture publish <spool.toml> [--rate <minutes>]",
        "  suture publish <name> <version> <git-url> [--tag <tag>] [--summary <text>] [--entry <path>] [--rate <minutes>]",
        "  suture spool add <name> <version> <git-url> [--tag <tag>] [--summary <text>] [--entry <path>]",
        "  suture spool list",
        "  suture audit",
    ];
    assert(lines@.map_values(|p: &str| p@) =~= usage_lines());
    join_strs(&lines, "\n")
}

/// The message for a command name that the tool does not know.
pub open spec fn unknown_command_message(name: Seq<char>) -> Seq<char> {
    "unknown command `"@ + name + "`\n\n"@ + spec_usage()
}

/// The command that a command line asks for, with the arguments that follow its name; the
/// usage text where there is none or help is asked for, and an "unknown command" message for
/// any other name.
pub open spec fn spec_dispatch(args: Seq<Seq<char>>) -> Result<
    (CommandKind, Seq<Seq<char>>),
    Seq<char>,
> {
    if args.len() == 0 {
        Err(spec_usage())
    } else {
        let c = args[0];
        let rest = args.drop_first();
        if c == "add"@ {
            Ok((CommandKind::Add, rest))
        } else if c == "remove"@ {
            Ok((CommandKind::Remove, rest))
        } else if c == "pull"@ {
            Ok((CommandKind::Pull, rest))
        } else if c == "publish"@ {
            Ok((CommandKind::Publish, rest))
        } else if c == "spool"@ {
            Ok((CommandKind::Spool, rest))
        } else if c == "audit"@ {
            Ok((CommandKind::Audit, rest))
        } else if c == "help"@ || c == "--help"@ || c == "-h"@ {
            Err(spec_usage())
        } else {
            Err(unknown_command_message(c))
        }
    }
}

/// The command that a command line (without the program name) asks for, and its arguments.
pub fn dispatch(args: &Vec<String>) -> (r: Result<(CommandKind, Vec<String>), String>)
    ensures
        match r {
            Ok((k, rest)) => spec_dispatch(strings_view(args@)) == Ok::<
                (CommandKind, Seq<Seq<char>>),
                Seq<char>,
            >((k, strings_view(rest@))),
            Err(e) => spec_dispatch(strings_view(args@)) == Err::<
                (CommandKind, Seq<Seq<char>>),
                Seq<char>,
            >(e@),
        },
{
    if args.len() == 0 {
        return Err(usage());
    }
    let c = args[0].as_str();
    let cc = chars_of(c);
    let rest = strings_from(args, 1);
    assert(strings_view(args@)[0] == args@[0]@);
    assert(strings_view(args@).skip(1) =~= strings_view(args@).drop_first());
    if chars_eq_str(&cc, "add") {
        return Ok((CommandKind::Add, rest));
    }
    if chars_eq_str(&cc, "remove") {
        return Ok((CommandKind::Remove, rest));
    }
    if chars_eq_str(&cc, "pull") {
        return Ok((CommandKind::Pull, rest));
    }
    if chars_eq_str(&cc, "publish") {
        return Ok((CommandKind::Publish, rest));
    }
    if chars_eq_str(&cc, "spool") {
        return Ok((CommandKind::Spool, rest));
    }
    if chars_eq_str(&cc, "audit") {
        return Ok((CommandKind::Audit, rest));
    }
    if chars_eq_str(&cc, "help") || chars_eq_str(&cc, "--help") || chars_eq_str(&cc, "-h") {
        return Err(usage());
    }
    let mut msg = "unknown command `".to_owned();
    push_str(&mut msg, c);
    push_str(&mut msg, "`\n\n");
    let u = usage();
    push_str(&mut msg, u.as_str());
    Err(msg)
}

} // verus!
