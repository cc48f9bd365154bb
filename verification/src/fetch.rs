//! Keeping the local copy of the registry index up to date with git.
use vstd::prelude::*;

use crate::text::strings_view;

verus! {

/// The git repository of the registry index, where `SUTURE_SPOOLS_REPO_URL` is not set.
pub open spec fn default_remote() -> Seq<char> {
    "https://github.com/MentalogueLang/Spools-Index.git"@
}

/// What bringing the index at a path up to date takes.
#[derive(Debug)]
pub enum RegistryPlan {
    /// Run git with these arguments in an existing checkout.
    Pull(Vec<String>),
    /// Use the existing directory as it is.
    UseExisting,
    /// Create the parent directory, then run git with these arguments to clone the index.
    Clone(Vec<String>),
}

/// What bringing the index at `root` up to date takes: a fast-forward pull where `root` is a
/// git checkout (`has_git`), nothing more where `root` exists otherwise, and a clone of
/// `remote` (the `SUTURE_SPOOLS_REPO_URL` setting, or [`default_remote`]) into `root` where
/// it does not exist.
pub fn registry_plan(root: &str, has_git: bool, exists: bool, remote: Option<&str>) -> (r:
    RegistryPlan)
    ensures
        has_git ==> (r matches RegistryPlan::Pull(a) && strings_view(a@) == seq![
            "-C"@,
            root@,
            "pull"@,
            "--ff-only"@,
        ]),
        !has_git && exists ==> r matches RegistryPlan::UseExisting,
        !has_git && !exists ==> (r matches RegistryPlan::Clone(a) && strings_view(a@) == seq![
            "clone"@,
            match remote {
                Some(x) => x@,
                None => default_remote(),
            },
            root@,
        ]),
{
    if has_git {
        let a = vec!["-C".to_owned(), root.to_owned(), "pull".to_owned(), "--ff-only".to_owned()];
        assert(strings_view(a@) =~= seq!["-C"@, root@, "pull"@, "--ff-only"@]);
        return RegistryPlan::Pull(a);
    }
    if exists {
        return RegistryPlan::UseExisting;
    }
    let url = match remote {
        Some(x) => x.to_owned(),
        None => "https://github.com/MentalogueLang/Spools-Index.git".to_owned(),
    };
    let a = vec!["clone".to_owned(), url, root.to_owned()];
    assert(strings_view(a@) =~= seq![
        "clone"@,
        match remote {
            Some(x) => x@,
            None => default_remote(),
        },
        root@,
    ]);
    RegistryPlan::Clone(a)
}

} // verus!
