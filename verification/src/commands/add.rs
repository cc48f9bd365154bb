//! `suture add <spool> <version>`: record a dependency in the project manifest.
use vstd::prelude::*;

use crate::text::{strings_view, trim, trim_string, trim_version, version_arg};

verus! {

/// The spool name and version that `suture add` was given: exactly two arguments, the name
/// trimmed and the version trimmed and without leading `v`s, neither of them empty.
pub open spec fn spec_add_args(args: Seq<Seq<char>>) -> Result<(Seq<char>, Seq<char>), Seq<char>> {
    if args.len() != 2 {
        Err("usage: suture add <spool> <version>"@)
    } else {
        let name = trim(args[0]);
        let version = version_arg(args[1]);
        if name.len() == 0 || version.len() == 0 {
            Err("spool name and version are required"@)
        } else {
            Ok((name, version))
        }
    }
}

/// The spool name and version that `suture add` was given.
pub fn parse_args(args: &Vec<String>) -> (r: Result<(String, String), String>)
    ensures
        match r {
            Ok((n, v)) => spec_add_args(strings_view(args@)) == Ok::<
                (Seq<char>, Seq<char>),
                Seq<char>,
            >((n@, v@)),
            Err(e) => spec_add_args(strings_view(args@)) == Err::<(Seq<char>, Seq<char>), Seq<char>>(
                e@,
            ),
        },
{
    if args.len() != 2 {
        return Err("usage: suture add <spool> <version>".to_owned());
    }
    let name = trim_string(args[0].as_str());
    let version = trim_version(args[1].as_str());
    assert(strings_view(args@)[0] == args@[0]@);
    assert(strings_view(args@)[1] == args@[1]@);
    if name.as_str().is_empty() || version.as_str().is_empty() {
        return Err("spool name and version are required".to_owned());
    }
    Ok((name, version))
}

} // verus!
