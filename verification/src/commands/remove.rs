//! `suture remove <spool>`: drop a dependency from the project manifest.
use vstd::prelude::*;

use crate::schema::ProjectManifest;
use crate::text::{push_str, strings_view, trim, trim_string};

verus! {

/// The spool name that `suture remove` was given: exactly one argument, trimmed, not empty.
pub open spec fn spec_remove_args(args: Seq<Seq<char>>) -> Result<Seq<char>, Seq<char>> {
    if args.len() != 1 {
        Err("usage: suture remove <spool>"@)
    } else {
        let name = trim(args[0]);
        if name.len() == 0 {
            Err("spool name cannot be empty"@)
        } else {
            Ok(name)
        }
    }
}

/// The spool name that `suture remove` was given.
pub fn parse_args(args: &Vec<String>) -> (r: Result<String, String>)
    ensures
        match r {
            Ok(n) => spec_remove_args(strings_view(args@)) == Ok::<Seq<char>, Seq<char>>(n@),
            Err(e) => spec_remove_args(strings_view(args@)) == Err::<Seq<char>, Seq<char>>(e@),
        },
{
    if args.len() != 1 {
        return Err("usage: suture remove <spool>".to_owned());
    }
    let name = trim_string(args[0].as_str());
    assert(strings_view(args@)[0] == args@[0]@);
    if name.as_str().is_empty() {
        return Err("spool name cannot be empty".to_owned());
    }
    Ok(name)
}

/// The message for removing a spool that the manifest does not list.
pub open spec fn not_listed_message(name: Seq<char>) -> Seq<char> {
    "spool `"@ + name + "` is not in suture.toml"@
}

/// Removes the dependency `name` from the manifest; an error where the manifest does not
/// list it.
pub fn remove_from_manifest(manifest: &mut ProjectManifest, name: &str) -> (r: Result<(), String>)
    requires
        old(manifest).wf(),
    ensures
        final(manifest).wf(),
        final(manifest).dependency_map() == old(manifest).dependency_map().remove(name@),
        final(manifest)@.package_name == old(manifest)@.package_name,
        final(manifest)@.package_version == old(manifest)@.package_version,
        match r {
            Ok(()) => old(manifest).dependency_map().contains_key(name@),
            Err(e) => !old(manifest).dependency_map().contains_key(name@) && e@
                == not_listed_message(name@),
        },
{
    if manifest.remove_dependency(name) {
        Ok(())
    } else {
        let mut msg = "spool `".to_owned();
        push_str(&mut msg, name);
        push_str(&mut msg, "` is not in suture.toml");
        Err(msg)
    }
}

} // verus!
