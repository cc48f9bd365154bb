//! Where the local copy of the registry index lives.
use vstd::prelude::*;

use crate::paths::{join, join_path};
use crate::text::opt_str;

verus! {

/// The directory of the index: `spools_dir` (the `SUTURE_SPOOLS_DIR` setting) where it is
/// set and not empty; otherwise `.mentalogue/suture/spools-index` under the home directory,
/// taken from `userprofile` where that is set and from `home` otherwise; none where neither
/// is set.
pub open spec fn spec_spools_root(
    spools_dir: Option<Seq<char>>,
    userprofile: Option<Seq<char>>,
    home: Option<Seq<char>>,
) -> Option<Seq<char>> {
    if spools_dir is Some && spools_dir->0.len() > 0 {
        spools_dir
    } else {
        let h = if userprofile is Some {
            userprofile
        } else {
            home
        };
        match h {
            Some(d) => Some(
                join_path(join_path(join_path(d, ".mentalogue"@), "suture"@), "spools-index"@),
            ),
            None => None,
        }
    }
}

/// The directory of the index (see [`spec_spools_root`]); `None` where no home directory is
/// known.
pub fn spools_root(spools_dir: Option<&str>, userprofile: Option<&str>, home: Option<&str>) -> (r:
    Option<String>)
    ensures
        match r {
            Some(p) => spec_spools_root(opt_str(spools_dir), opt_str(userprofile), opt_str(home))
                == Some(p@),
            None => spec_spools_root(opt_str(spools_dir), opt_str(userprofile), opt_str(home))
                is None,
        },
{
    if let Some(dir) = spools_dir {
        if !dir.is_empty() {
            return Some(dir.to_owned());
        }
    }
    let h = match userprofile {
        Some(u) => Some(u),
        None => home,
    };
    match h {
        Some(d) => {
            let p = join(d, ".mentalogue");
            let p = join(p.as_str(), "suture");
            Some(join(p.as_str(), "spools-index"))
        },
        None => None,
    }
}

} // verus!
