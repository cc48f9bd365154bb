//! `suture audit`: check that every dependency is in the index, checked out and built.
use vstd::prelude::*;

use crate::spool_entry::SpoolEntry;
use crate::text::{decimal, push_decimal, push_str, strings_view};

verus! {

/// `suture audit` takes no arguments.
pub fn parse_args(args: &Vec<String>) -> (r: Result<(), String>)
    ensures
        match r {
            Ok(()) => args.len() == 0,
            Err(e) => args.len() != 0 && e@ == "usage: suture audit"@,
        },
{
    if args.len() != 0 {
        return Err("usage: suture audit".to_owned());
    }
    Ok(())
}

/// The outcome of an audit that found the given problems: success where there are none,
/// and an error that counts them otherwise.
pub open spec fn spec_audit_outcome(failures: nat) -> Result<(), Seq<char>> {
    if failures == 0 {
        Ok(())
    } else {
        Err("audit failed with "@ + decimal(failures) + " issue(s)"@)
    }
}

/// The outcome of an audit that found the given problems.
pub fn outcome(failures: &Vec<String>) -> (r: Result<(), String>)
    ensures
        match r {
            Ok(()) => spec_audit_outcome(failures.len() as nat) == Ok::<(), Seq<char>>(()),
            Err(e) => spec_audit_outcome(failures.len() as nat) == Err::<(), Seq<char>>(e@),
        },
{
    if failures.len() == 0 {
        return Ok(());
    }
    let mut msg = "audit failed with ".to_owned();
    push_decimal(&mut msg, failures.len() as u64);
    push_str(&mut msg, " issue(s)");
    Err(msg)
}

/// What the audit of one dependency that the index holds reports: the lines it prints as
/// passed checks, and the problems it found. `source_dir` is where its sources should be
/// checked out and `source_exists` whether they are; `build_entry` is the outcome of resolving
/// its build entry there; `mlib` is where its library should be built and `mlib_exists`
/// whether it is.
pub open spec fn spec_dependency_report(
    name: Seq<char>,
    version: Seq<char>,
    source_dir: Seq<char>,
    source_exists: bool,
    build_entry: Result<Seq<char>, Seq<char>>,
    mlib: Seq<char>,
    mlib_exists: bool,
) -> (Seq<Seq<char>>, Seq<Seq<char>>) {
    let passed0 = seq!["ok index "@ + name + " "@ + version];
    let (passed1, failed1) = if source_exists {
        (passed0.push("ok source "@ + source_dir), Seq::<Seq<char>>::empty())
    } else {
        (
            passed0,
            seq![
                "missing source checkout for "@ + name + " "@ + version + " at "@ + source_dir,
            ],
        )
    };
    let (passed2, failed2) = match build_entry {
        Ok(p) => (passed1.push("ok entry "@ + p), failed1),
        Err(e) => (passed1, failed1.push(e)),
    };
    if mlib_exists {
        (passed2.push("ok mlib "@ + mlib), failed2)
    } else {
        (passed2, failed2.push("missing mlib for "@ + name + " "@ + version + " at "@ + mlib))
    }
}

fn concat2(a: &str, b: &str) -> (r: String)
    ensures
        r@ == a@ + b@,
{
    let mut m = a.to_owned();
    push_str(&mut m, b);
    m
}

fn concat4(a: &str, b: &str, c: &str, d: &str) -> (r: String)
    ensures
        r@ == a@ + b@ + c@ + d@,
{
    let mut m = a.to_owned();
    push_str(&mut m, b);
    push_str(&mut m, c);
    push_str(&mut m, d);
    m
}

/// What the audit of one dependency that the index holds reports (see
/// [`spec_dependency_report`]): the passed checks to print, and the problems to add.
pub fn dependency_report(
    entry: &SpoolEntry,
    source_dir: &str,
    source_exists: bool,
    build_entry: Result<String, String>,
    mlib: &str,
    mlib_exists: bool,
) -> (r: (Vec<String>, Vec<String>))
    ensures
        (strings_view(r.0@), strings_view(r.1@)) == spec_dependency_report(
            entry@.name,
            entry@.version,
            source_dir@,
            source_exists,
            match build_entry {
                Ok(p) => Ok(p@),
                Err(e) => Err(e@),
            },
            mlib@,
            mlib_exists,
        ),
{
    let name = entry.name.as_str();
    let version = entry.version.as_str();
    let mut passed: Vec<String> = Vec::new();
    let mut failed: Vec<String> = Vec::new();
    passed.push(concat4("ok index ", name, " ", version));
    if source_exists {
        passed.push(concat2("ok source ", source_dir));
    } else {
        let mut m = concat4("missing source checkout for ", name, " ", version);
        push_str(&mut m, " at ");
        push_str(&mut m, source_dir);
        failed.push(m);
    }
    match build_entry {
        Ok(p) => passed.push(concat2("ok entry ", p.as_str())),
        Err(e) => failed.push(e),
    }
    if mlib_exists {
        passed.push(concat2("ok mlib ", mlib));
    } else {
        let mut m = concat4("missing mlib for ", name, " ", version);
        push_str(&mut m, " at ");
        push_str(&mut m, mlib);
        failed.push(m);
    }
    assert(strings_view(passed@) =~= spec_dependency_report(
        entry@.name,
        entry@.version,
        source_dir@,
        source_exists,
        match build_entry {
            Ok(p) => Ok(p@),
            Err(e) => Err(e@),
        },
        mlib@,
        mlib_exists,
    ).0);
    assert(strings_view(failed@) =~= spec_dependency_report(
        entry@.name,
        entry@.version,
        source_dir@,
        source_exists,
        match build_entry {
            Ok(p) => Ok(p@),
            Err(e) => Err(e@),
        },
        mlib@,
        mlib_exists,
    ).1);
    (passed, failed)
}

} // verus!
