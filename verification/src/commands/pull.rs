//! `suture pull`: fetch and build every dependency of the project.
use vstd::prelude::*;

verus! {

/// `suture pull` takes no arguments.
pub fn parse_args(args: &Vec<String>) -> (r: Result<(), String>)
    ensures
        match r {
            Ok(()) => args.len() == 0,
            Err(e) => args.len() != 0 && e@ == "usage: suture pull"@,
        },
{
    if args.len() != 0 {
        return Err("usage: suture pull".to_owned());
    }
    Ok(())
}

} // verus!
