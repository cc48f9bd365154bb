//! Finding spools in the registry index: where an entry lives, reading entries, and searching
//! them by name.
use vstd::prelude::*;

use crate::paths::{join, join_path};
use crate::spool_entry::{spec_parse_entry, EntryView, SpoolEntry};
use crate::text::{
    ascii_lower_seq, ascii_lowercase, chars_of, contains_chars, contains_seq, push_str, starts_with,
    starts_with_str, strings_view, trim, trim_chars,
};

verus! {

/// The index bucket of a spool name: `lib` for names that start with `lib` (ignoring case and
/// surrounding whitespace), the lower-case first letter for other names that start with an
/// ASCII letter, and `lib` for all others.
pub open spec fn spec_bucket(name: Seq<char>) -> Seq<char> {
    let lower = ascii_lower_seq(trim(name));
    if starts_with(lower, "lib"@) {
        "lib"@
    } else if lower.len() > 0 && 'a' <= lower[0] <= 'z' {
        seq![lower[0]]
    } else {
        "lib"@
    }
}

/// A bucket is `lib` or a single lower-case ASCII letter.
pub proof fn lemma_bucket_shape(name: Seq<char>)
    ensures
        spec_bucket(name) == "lib"@ || (spec_bucket(name).len() == 1 && 'a' <= spec_bucket(name)[0]
            <= 'z'),
{
}

/// Names that agree after trimming and ASCII lower-casing share a bucket.
pub proof fn lemma_bucket_ignores_case_and_padding(a: Seq<char>, b: Seq<char>)
    requires
        ascii_lower_seq(trim(a)) == ascii_lower_seq(trim(b)),
    ensures
        spec_bucket(a) == spec_bucket(b),
{
}

/// The single-letter bucket name for `c`.
fn letter_bucket(c: char) -> (r: &'static str)
    requires
        'a' <= c <= 'z',
    ensures
        r@ == seq![c],
{
    match c {
        'a' => {
            proof {
                reveal_strlit("a");
            }
            "a"
        },
        'b' => {
            proof {
                reveal_strlit("b");
            }
            "b"
        },
        'c' => {
            proof {
                reveal_strlit("c");
            }
            "c"
        },
        'd' => {
            proof {
                reveal_strlit("d");
            }
            "d"
        },
        'e' => {
            proof {
                reveal_strlit("e");
            }
            "e"
        },
        'f' => {
            proof {
                reveal_strlit("f");
            }
            "f"
        },
        'g' => {
            proof {
                reveal_strlit("g");
            }
            "g"
        },
        'h' => {
            proof {
                reveal_strlit("h");
            }
            "h"
        },
        'i' => {
            proof {
                reveal_strlit("i");
            }
            "i"
        },
        'j' => {
            proof {
                reveal_strlit("j");
            }
            "j"
        },
        'k' => {
            proof {
                reveal_strlit("k");
            }
            "k"
        },
        'l' => {
            proof {
                reveal_strlit("l");
            }
            "l"
        },
        'm' => {
            proof {
                reveal_strlit("m");
            }
            "m"
        },
        'n' => {
            proof {
                reveal_strlit("n");
            }
            "n"
        },
        'o' => {
            proof {
                reveal_strlit("o");
            }
            "o"
        },
        'p' => {
            proof {
                reveal_strlit("p");
            }
            "p"
        },
        'q' => {
            proof {
                reveal_strlit("q");
            }
            "q"
        },
        'r' => {
            proof {
                reveal_strlit("r");
            }
            "r"
        },
        's' => {
            proof {
                reveal_strlit("s");
            }
            "s"
        },
        't' => {
            proof {
                reveal_strlit("t");
            }
            "t"
        },
        'u' => {
            proof {
                reveal_strlit("u");
            }
            "u"
        },
        'v' => {
            proof {
                reveal_strlit("v");
            }
            "v"
        },
        'w' => {
            proof {
                reveal_strlit("w");
            }
            "w"
        },
        'x' => {
            proof {
                reveal_strlit("x");
            }
            "x"
        },
        'y' => {
            proof {
                reveal_strlit("y");
            }
            "y"
        },
        _ => {
            proof {
                reveal_strlit("z");
            }
            "z"
        },
    }
}

/// The index bucket of a spool name (see [`spec_bucket`]).
pub fn bucket_for_name(name: &str) -> (r: &'static str)
    ensures
        r@ == spec_bucket(name@),
{
    let chars = chars_of(name);
    let trimmed = trim_chars(&chars);
    let lower = ascii_lowercase(&trimmed);
    if starts_with_str(&lower, "lib") {
        return "lib";
    }
    if lower.len() > 0 && 'a' <= lower[0] && lower[0] <= 'z' {
        letter_bucket(lower[0])
    } else {
        "lib"
    }
}

/// The path of the `spool.toml` of `name` at `version` in the index at `root`:
/// `root/entries/<bucket>/<name>/<version>/spool.toml`.
pub open spec fn spec_spool_path(root: Seq<char>, name: Seq<char>, version: Seq<char>) -> Seq<
    char,
> {
    join_path(
        join_path(
            join_path(join_path(join_path(root, "entries"@), spec_bucket(name)), name),
            version,
        ),
        "spool.toml"@,
    )
}

/// The path of the `spool.toml` of `name` at `version` in the index at `root`.
pub fn spool_path(root: &str, name: &str, version: &str) -> (r: String)
    ensures
        r@ == spec_spool_path(root@, name@, version@),
{
    let p = join(root, "entries");
    let p = join(p.as_str(), bucket_for_name(name));
    let p = join(p.as_str(), name);
    let p = join(p.as_str(), version);
    join(p.as_str(), "spool.toml")
}

/// The message of the error for an invalid entry at `path`.
pub open spec fn invalid_entry_message(path: Seq<char>) -> Seq<char> {
    "invalid spool entry `"@ + path + "`"@
}

impl SpoolEntry {
    /// The entry in the file at `path` whose text is `contents`; the error
    /// `invalid spool entry `path`` where the text does not describe an entry.
    pub fn read(path: &str, contents: &str) -> (r: Result<SpoolEntry, String>)
        ensures
            match r {
                Ok(e) => spec_parse_entry(contents@) == Some(e@),
                Err(msg) => spec_parse_entry(contents@) is None && msg@ == invalid_entry_message(
                    path@,
                ),
            },
    {
        match SpoolEntry::parse(contents) {
            Some(e) => Ok(e),
            None => {
                let mut msg = "invalid spool entry `".to_owned();
                push_str(&mut msg, path);
                push_str(&mut msg, "`");
                Err(msg)
            },
        }
    }
}

/// The entries that the given texts describe, in order; texts that describe none are left
/// out.
pub open spec fn parsed_entries(sources: Seq<Seq<char>>) -> Seq<EntryView>
    decreases sources.len(),
{
    if sources.len() == 0 {
        Seq::empty()
    } else {
        let rest = parsed_entries(sources.drop_last());
        match spec_parse_entry(sources.last()) {
            Some(e) => rest.push(e),
            None => rest,
        }
    }
}

/// The views of a list of entries.
pub open spec fn entries_view(es: Seq<SpoolEntry>) -> Seq<EntryView> {
    es.map_values(|e: SpoolEntry| e@)
}

/// The entries that the texts of the index's `spool.toml` files describe, in the order of
/// the files; files that describe no entry are left out.
pub fn list_spools(sources: &Vec<String>) -> (r: Vec<SpoolEntry>)
    ensures
        entries_view(r@) == parsed_entries(strings_view(sources@)),
{
    let mut out: Vec<SpoolEntry> = Vec::new();
    let mut i: usize = 0;
    while i < sources.len()
        invariant
            i <= sources.len(),
            entries_view(out@) == parsed_entries(strings_view(sources@).take(i as int)),
        decreases sources.len() - i,
    {
        let ghost before = out@;
        let parsed = SpoolEntry::parse(sources[i].as_str());
        proof {
            let sv = strings_view(sources@);
            assert(sv.take(i + 1).drop_last() =~= sv.take(i as int));
            assert(sv.take(i + 1).last() == sources@[i as int]@);
        }
        match parsed {
            Some(e) => {
                out.push(e);
                assert(entries_view(out@) =~= entries_view(before).push(e@));
            },
            None => {},
        }
        i = i + 1;
    }
    assert(strings_view(sources@).take(sources.len() as int) =~= strings_view(sources@));
    out
}

/// The entry of a spool version in the index: none where its `spool.toml` does not exist
/// (`contents` is `None`), the entry where its text describes one, and the error
/// `invalid spool entry `path`` otherwise.
pub fn find_spool(path: &str, contents: Option<&str>) -> (r: Result<Option<SpoolEntry>, String>)
    ensures
        match contents {
            None => r == Ok::<Option<SpoolEntry>, String>(None),
            Some(src) => match r {
                Ok(Some(e)) => spec_parse_entry(src@) == Some(e@),
                Ok(None) => false,
                Err(msg) => spec_parse_entry(src@) is None && msg@ == invalid_entry_message(path@),
            },
        },
{
    match contents {
        None => Ok(None),
        Some(src) => match SpoolEntry::read(path, src) {
            Ok(e) => Ok(Some(e)),
            Err(msg) => Err(msg),
        },
    }
}

/// The lower-case form of a string under the Unicode case mapping of `str::to_lowercase`.
pub uninterp spec fn unicode_lowercase(s: Seq<char>) -> Seq<char>;

/// The lower-case form of `s`.
///
/// Trusted: calls `str::to_lowercase`, whose result depends on `s` alone; its Unicode case
/// mapping is not written out here, only named.
#[verifier::external_body]
fn to_lowercase(s: &str) -> (r: String)
    ensures
        r@ == unicode_lowercase(s@),
{
    s.to_lowercase()
}

/// Whether the lower-cased needle occurs in the lower-cased name.
pub fn name_matches(lowered_name: &str, lowered_needle: &str) -> (r: bool)
    ensures
        r == contains_seq(lowered_name@, lowered_needle@),
{
    let h = chars_of(lowered_name);
    let n = chars_of(lowered_needle);
    contains_chars(&h, &n)
}

/// An entry matches a search for `needle` where the lower-case needle occurs in its
/// lower-case name.
pub open spec fn search_match(e: EntryView, needle: Seq<char>) -> bool {
    contains_seq(unicode_lowercase(e.name), unicode_lowercase(needle))
}

/// The entries of `es` that match a search for `needle`, in order.
pub open spec fn search_results(es: Seq<EntryView>, needle: Seq<char>) -> Seq<EntryView>
    decreases es.len(),
{
    if es.len() == 0 {
        Seq::empty()
    } else {
        let rest = search_results(es.drop_last(), needle);
        if search_match(es.last(), needle) {
            rest.push(es.last())
        } else {
            rest
        }
    }
}

/// The entries whose name contains `name`, ignoring case, in order.
pub fn search_by_name(entries: Vec<SpoolEntry>, name: &str) -> (r: Vec<SpoolEntry>)
    ensures
        entries_view(r@) == search_results(entries_view(entries@), name@),
{
    let needle = to_lowercase(name);
    let ghost all = entries_view(entries@);
    let total = entries.len();
    let mut out: Vec<SpoolEntry> = Vec::new();
    let mut rest = entries;
    let mut k: usize = 0;
    assert(all.skip(0) =~= all);
    assert(all.take(0) =~= Seq::<EntryView>::empty());
    while rest.len() > 0
        invariant
            k <= all.len(),
            all.len() == total,
            entries_view(rest@) == all.skip(k as int),
            entries_view(out@) == search_results(all.take(k as int), name@),
            needle@ == unicode_lowercase(name@),
        decreases rest.len(),
    {
        let ghost before = out@;
        let ghost rest_before = rest@;
        assert(entries_view(rest@).len() == rest@.len());
        assert(k < all.len());
        let e = rest.remove(0);
        proof {
            assert(entries_view(rest_before)[0] == e@);
            assert(all.skip(k as int)[0] == e@);
            assert(rest@ =~= rest_before.skip(1));
            assert forall|j: int| 0 <= j < rest@.len() implies entries_view(rest@)[j] == all.skip(
                k + 1,
            )[j] by {
                assert(entries_view(rest@)[j] == rest_before[j + 1]@);
                assert(entries_view(rest_before)[j + 1] == all.skip(k as int)[j + 1]);
            }
            assert(entries_view(rest@) =~= all.skip(k + 1));
            assert(all.take(k + 1).drop_last() =~= all.take(k as int));
            assert(all.take(k + 1).last() == e@);
        }
        let lowered = to_lowercase(e.name.as_str());
        let keep = name_matches(lowered.as_str(), needle.as_str());
        if keep {
            out.push(e);
            assert(entries_view(out@) =~= entries_view(before).push(e@));
        }
        k = k + 1;
    }
    assert(all.take(k as int) =~= all);
    out
}

/// The names of `rs`, in order.
pub open spec fn entry_names(rs: Seq<EntryView>) -> Seq<Seq<char>> {
    rs.map_values(|e: EntryView| e.name)
}

/// What a search keeps depends on the entries' names alone: two lists whose entries have the
/// same names, position by position, give results with the same names, in the same order,
/// whatever the summaries, versions and sources of the entries say.
pub proof fn lemma_search_depends_on_names_only(
    es: Seq<EntryView>,
    fs: Seq<EntryView>,
    needle: Seq<char>,
)
    requires
        es.len() == fs.len(),
        forall|i: int| 0 <= i < es.len() ==> #[trigger] es[i].name == fs[i].name,
    ensures
        entry_names(search_results(es, needle)) == entry_names(search_results(fs, needle)),
    decreases es.len(),
{
    if es.len() > 0 {
        let ei = es.drop_last();
        let fi = fs.drop_last();
        assert forall|i: int| 0 <= i < ei.len() implies #[trigger] ei[i].name == fi[i].name by {
            assert(es[i].name == fs[i].name);
        }
        lemma_search_depends_on_names_only(ei, fi, needle);
        let re = search_results(ei, needle);
        let rf = search_results(fi, needle);
        assert(es[es.len() - 1].name == fs[fs.len() - 1].name);
        assert(entry_names(re.push(es.last())) =~= entry_names(re).push(es.last().name));
        assert(entry_names(rf.push(fs.last())) =~= entry_names(rf).push(fs.last().name));
    }
}

} // verus!
