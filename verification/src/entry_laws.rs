//! What reading a written `spool.toml` gives back.
use vstd::prelude::*;

use crate::kv::{
    array_header_line, header_line, kv_line, lemma_array_header_line,
    lemma_header_line, lemma_kv_line, plain_key, plain_section,
};
use crate::spool_entry::{
    artifact_lines, artifacts_lines, build_lines, empty_artifact, entry_assign, entry_fold,
    entry_lines, entry_step, finish, flush, initial_state, opt_kv_lines, package_lines, pair_lines,
    source_lines, spec_entry_toml, spec_parse_entry, table_lines, ArtifactView, EntryState,
    EntryView, SpoolEntry,
};
use crate::text::{
    lacks, lemma_split_lines_concat, lemma_split_lines_first_line, lemma_split_unlines,
    lemma_trim_fixed, split_lines, trim,
};

verus! {

/// `v` holds no line break, where present.
pub open spec fn opt_lacks_newline(v: Option<Seq<char>>) -> bool {
    match v {
        Some(x) => lacks(x, '\n'),
        None => true,
    }
}

/// Every pair has a plain key and a value without line breaks.
pub open spec fn plain_pairs(ps: Seq<(Seq<char>, Seq<char>)>) -> bool {
    forall|i: int| 0 <= i < ps.len() ==> plain_key(#[trigger] ps[i].0) && lacks(ps[i].1, '\n')
}

/// An artifact whose strings hold no line breaks.
pub open spec fn plain_artifact(a: ArtifactView) -> bool {
    lacks(a.target, '\n') && lacks(a.url, '\n') && opt_lacks_newline(a.checksum)
}

/// An entry whose `spool.toml` text reads back as itself: no string in it holds a line
/// break, and every dependency name is a plain key (see [`plain_key`]).
pub open spec fn plain_entry(e: EntryView) -> bool {
    &&& lacks(e.name, '\n')
    &&& lacks(e.version, '\n')
    &&& opt_lacks_newline(e.summary)
    &&& lacks(e.source_git, '\n')
    &&& opt_lacks_newline(e.source_tag)
    &&& opt_lacks_newline(e.source_rev)
    &&& opt_lacks_newline(e.build_entry)
    &&& plain_pairs(e.dependencies)
    &&& plain_pairs(e.dev_dependencies)
    &&& forall|i: int| 0 <= i < e.artifacts.len() ==> plain_artifact(#[trigger] e.artifacts[i])
}

/// Every line lacks a line break.
pub open spec fn all_lack_newline(ls: Seq<Seq<char>>) -> bool {
    forall|i: int| 0 <= i < ls.len() ==> lacks(#[trigger] ls[i], '\n')
}

// ---------------------------------------------------------------------------------------------
// Facts about the names the format uses
// ---------------------------------------------------------------------------------------------

proof fn lemma_plain_word(s: Seq<char>)
    requires
        s.len() > 0,
        forall|i: int| 0 <= i < s.len() ==> ('a' <= #[trigger] s[i] <= 'z' || s[i] == '-'),
    ensures
        plain_key(s),
        plain_section(s),
        lacks(s, '\n'),
{
    assert(s[0] == s[0]);
    assert(s.last() == s[s.len() - 1]);
}

proof fn lemma_format_words()
    ensures
        plain_section("package"@),
        plain_section("source"@),
        plain_section("build"@),
        plain_section("dependencies"@),
        plain_section("dev-dependencies"@),
        plain_section("artifacts"@),
        lacks("package"@, '\n'),
        lacks("source"@, '\n'),
        lacks("build"@, '\n'),
        lacks("dependencies"@, '\n'),
        lacks("dev-dependencies"@, '\n'),
        lacks("artifacts"@, '\n'),
        plain_key("name"@),
        plain_key("version"@),
        plain_key("summary"@),
        plain_key("git"@),
        plain_key("tag"@),
        plain_key("rev"@),
        plain_key("entry"@),
        plain_key("target"@),
        plain_key("url"@),
        plain_key("checksum"@),
        "package"@.len() == 7,
        "source"@.len() == 6,
        "build"@.len() == 5,
        "dependencies"@.len() == 12,
        "dev-dependencies"@.len() == 16,
        "artifacts"@.len() == 9,
        "name"@ != "version"@,
        "name"@ != "summary"@,
        "version"@ != "summary"@,
        "git"@ != "tag"@,
        "git"@ != "rev"@,
        "tag"@ != "rev"@,
        "target"@ != "url"@,
        "target"@ != "checksum"@,
        "url"@ != "checksum"@,
{
    reveal_strlit("package");
    reveal_strlit("source");
    reveal_strlit("build");
    reveal_strlit("dependencies");
    reveal_strlit("dev-dependencies");
    reveal_strlit("artifacts");
    reveal_strlit("name");
    reveal_strlit("version");
    reveal_strlit("summary");
    reveal_strlit("git");
    reveal_strlit("tag");
    reveal_strlit("rev");
    reveal_strlit("entry");
    reveal_strlit("target");
    reveal_strlit("url");
    reveal_strlit("checksum");
    lemma_plain_word("package"@);
    lemma_plain_word("source"@);
    lemma_plain_word("build"@);
    lemma_plain_word("dependencies"@);
    lemma_plain_word("dev-dependencies"@);
    lemma_plain_word("artifacts"@);
    lemma_plain_word("name"@);
    lemma_plain_word("version"@);
    lemma_plain_word("summary"@);
    lemma_plain_word("git"@);
    lemma_plain_word("tag"@);
    lemma_plain_word("rev"@);
    lemma_plain_word("entry"@);
    lemma_plain_word("target"@);
    lemma_plain_word("url"@);
    lemma_plain_word("checksum"@);
    assert("name"@[0] != "version"@[0]);
    assert("name"@[0] != "summary"@[0]);
    assert("version"@[0] != "summary"@[0]);
    assert("git"@[0] != "tag"@[0]);
    assert("git"@[0] != "rev"@[0]);
    assert("tag"@[0] != "rev"@[0]);
}

// ---------------------------------------------------------------------------------------------
// The written lines hold no line breaks
// ---------------------------------------------------------------------------------------------

proof fn lemma_kv_line_lacks(k: Seq<char>, v: Seq<char>)
    requires
        lacks(k, '\n'),
        lacks(v, '\n'),
    ensures
        lacks(kv_line(k, v), '\n'),
{
    let l = kv_line(k, v);
    assert forall|i: int| 0 <= i < l.len() implies l[i] != '\n' by {
        if i < k.len() {
            assert(l[i] == k[i]);
        } else if i >= k.len() + 4 && i < k.len() + 4 + v.len() {
            assert(l[i] == v[i - k.len() - 4]);
        }
    }
}

proof fn lemma_header_lacks(n: Seq<char>)
    requires
        lacks(n, '\n'),
    ensures
        lacks(header_line(n), '\n'),
        lacks(array_header_line(n), '\n'),
{
    let l = header_line(n);
    assert forall|i: int| 0 <= i < l.len() implies l[i] != '\n' by {
        if 1 <= i < n.len() + 1 {
            assert(l[i] == n[i - 1]);
        }
    }
    let a = array_header_line(n);
    assert forall|i: int| 0 <= i < a.len() implies a[i] != '\n' by {
        if 2 <= i < n.len() + 2 {
            assert(a[i] == n[i - 2]);
        }
    }
}

proof fn lemma_all_lack_append(a: Seq<Seq<char>>, b: Seq<Seq<char>>)
    requires
        all_lack_newline(a),
        all_lack_newline(b),
    ensures
        all_lack_newline(a + b),
{
    assert forall|i: int| 0 <= i < (a + b).len() implies lacks(#[trigger] (a + b)[i], '\n') by {
        if i < a.len() {
            assert((a + b)[i] == a[i]);
        } else {
            assert((a + b)[i] == b[i - a.len()]);
        }
    }
}

proof fn lemma_empty_lacks()
    ensures
        lacks(Seq::<char>::empty(), '\n'),
{
}

proof fn lemma_opt_lines_lack(k: Seq<char>, v: Option<Seq<char>>)
    requires
        lacks(k, '\n'),
        opt_lacks_newline(v),
    ensures
        all_lack_newline(opt_kv_lines(k, v)),
{
    match v {
        Some(x) => {
            lemma_kv_line_lacks(k, x);
        },
        None => {},
    }
}

proof fn lemma_pair_lines_lack(ps: Seq<(Seq<char>, Seq<char>)>)
    requires
        plain_pairs(ps),
    ensures
        all_lack_newline(pair_lines(ps)),
{
    assert forall|i: int| 0 <= i < pair_lines(ps).len() implies lacks(
        #[trigger] pair_lines(ps)[i],
        '\n',
    ) by {
        assert(plain_key(ps[i].0));
        lemma_kv_line_lacks(ps[i].0, ps[i].1);
    }
}

proof fn lemma_table_lines_lack(n: Seq<char>, ps: Seq<(Seq<char>, Seq<char>)>)
    requires
        lacks(n, '\n'),
        plain_pairs(ps),
    ensures
        all_lack_newline(table_lines(n, ps)),
{
    if ps.len() > 0 {
        lemma_header_lacks(n);
        lemma_pair_lines_lack(ps);
        lemma_all_lack_append(seq![Seq::<char>::empty(), header_line(n)], pair_lines(ps));
    }
}

proof fn lemma_artifacts_lines_lack(a: Seq<ArtifactView>)
    requires
        forall|i: int| 0 <= i < a.len() ==> plain_artifact(#[trigger] a[i]),
    ensures
        all_lack_newline(artifacts_lines(a)),
    decreases a.len(),
{
    if a.len() > 0 {
        let init = a.drop_last();
        assert forall|i: int| 0 <= i < init.len() implies plain_artifact(#[trigger] init[i]) by {
            assert(init[i] == a[i]);
        }
        lemma_artifacts_lines_lack(init);
        let x = a.last();
        assert(plain_artifact(a[a.len() - 1]));
        lemma_format_words();
        lemma_header_lacks("artifacts"@);
        lemma_kv_line_lacks("target"@, x.target);
        lemma_kv_line_lacks("url"@, x.url);
        lemma_opt_lines_lack("checksum"@, x.checksum);
        lemma_all_lack_append(
            seq![
                Seq::<char>::empty(),
                array_header_line("artifacts"@),
                kv_line("target"@, x.target),
                kv_line("url"@, x.url),
            ],
            opt_kv_lines("checksum"@, x.checksum),
        );
        lemma_all_lack_append(artifacts_lines(init), artifact_lines(x));
    }
}

proof fn lemma_entry_lines_lack(e: EntryView)
    requires
        plain_entry(e),
    ensures
        all_lack_newline(entry_lines(e)),
{
    lemma_format_words();
    lemma_header_lacks("package"@);
    lemma_header_lacks("source"@);
    lemma_header_lacks("build"@);
    lemma_kv_line_lacks("name"@, e.name);
    lemma_kv_line_lacks("version"@, e.version);
    lemma_kv_line_lacks("git"@, e.source_git);
    lemma_opt_lines_lack("summary"@, e.summary);
    lemma_opt_lines_lack("tag"@, e.source_tag);
    lemma_opt_lines_lack("rev"@, e.source_rev);
    let p = package_lines(e);
    lemma_all_lack_append(
        seq![header_line("package"@), kv_line("name"@, e.name), kv_line("version"@, e.version)],
        opt_kv_lines("summary"@, e.summary),
    );
    lemma_all_lack_append(
        seq![Seq::<char>::empty(), header_line("source"@), kv_line("git"@, e.source_git)],
        opt_kv_lines("tag"@, e.source_tag),
    );
    lemma_all_lack_append(
        seq![Seq::<char>::empty(), header_line("source"@), kv_line("git"@, e.source_git)]
            + opt_kv_lines("tag"@, e.source_tag),
        opt_kv_lines("rev"@, e.source_rev),
    );
    let s = source_lines(e);
    let b = build_lines(e.build_entry);
    match e.build_entry {
        Some(x) => {
            lemma_kv_line_lacks("entry"@, x);
        },
        None => {},
    }
    assert(all_lack_newline(b));
    let d = table_lines("dependencies"@, e.dependencies);
    let dd = table_lines("dev-dependencies"@, e.dev_dependencies);
    lemma_table_lines_lack("dependencies"@, e.dependencies);
    lemma_table_lines_lack("dev-dependencies"@, e.dev_dependencies);
    let a = artifacts_lines(e.artifacts);
    lemma_artifacts_lines_lack(e.artifacts);
    lemma_all_lack_append(p, s);
    lemma_all_lack_append(p + s, b);
    lemma_all_lack_append(p + s + b, d);
    lemma_all_lack_append(p + s + b + d, dd);
    lemma_all_lack_append(p + s + b + d + dd, a);
}

// ---------------------------------------------------------------------------------------------
// Reading the written lines
// ---------------------------------------------------------------------------------------------

proof fn lemma_fold_append(st: EntryState, a: Seq<Seq<char>>, b: Seq<Seq<char>>)
    ensures
        entry_fold(st, a + b) == entry_fold(entry_fold(st, a), b),
    decreases b.len(),
{
    if b.len() == 0 {
        assert(a + b =~= a);
    } else {
        lemma_fold_append(st, a, b.drop_last());
        assert((a + b).drop_last() =~= a + b.drop_last());
        assert((a + b).last() == b.last());
    }
}

proof fn lemma_fold_one(st: EntryState, l: Seq<char>)
    ensures
        entry_fold(st, seq![l]) == entry_step(st, l),
{
    assert(seq![l].drop_last() =~= Seq::<Seq<char>>::empty());
    assert(entry_fold(st, Seq::<Seq<char>>::empty()) == st);
}

proof fn lemma_step_blank(st: EntryState)
    ensures
        entry_step(st, Seq::<char>::empty()) == st,
{
    lemma_trim_fixed(Seq::<char>::empty());
}

proof fn lemma_step_header(st: EntryState, n: Seq<char>)
    requires
        plain_section(n),
    ensures
        entry_step(st, header_line(n)) == (EntryState { section: Some(n), ..flush(st) }),
{
    lemma_header_line(n);
}

proof fn lemma_step_kv(st: EntryState, k: Seq<char>, v: Seq<char>)
    requires
        plain_key(k),
    ensures
        entry_step(st, kv_line(k, v)) == entry_assign(st, k, v),
{
    lemma_kv_line(k, v);
}

proof fn lemma_fold_opt(st: EntryState, k: Seq<char>, v: Option<Seq<char>>)
    requires
        plain_key(k),
    ensures
        entry_fold(st, opt_kv_lines(k, v)) == match v {
            Some(x) => entry_assign(st, k, x),
            None => st,
        },
{
    match v {
        Some(x) => {
            lemma_fold_one(st, kv_line(k, x));
            lemma_step_kv(st, k, x);
        },
        None => {},
    }
}

proof fn lemma_fold_package(st: EntryState, e: EntryView)
    requires
        st.current is None,
    ensures
        entry_fold(st, package_lines(e)) == (EntryState {
            section: Some("package"@),
            name: Some(e.name),
            version: Some(e.version),
            summary: match e.summary {
                Some(x) => Some(x),
                None => st.summary,
            },
            ..st
        }),
{
    lemma_format_words();
    let h = header_line("package"@);
    let ln = kv_line("name"@, e.name);
    let lv = kv_line("version"@, e.version);
    let o = opt_kv_lines("summary"@, e.summary);
    assert(package_lines(e) =~= seq![h] + seq![ln] + seq![lv] + o);
    lemma_fold_append(st, seq![h] + seq![ln] + seq![lv], o);
    lemma_fold_append(st, seq![h] + seq![ln], seq![lv]);
    lemma_fold_append(st, seq![h], seq![ln]);
    lemma_fold_one(st, h);
    lemma_step_header(st, "package"@);
    let s1 = entry_step(st, h);
    lemma_fold_one(s1, ln);
    lemma_step_kv(s1, "name"@, e.name);
    let s2 = entry_step(s1, ln);
    lemma_fold_one(s2, lv);
    lemma_step_kv(s2, "version"@, e.version);
    let s3 = entry_step(s2, lv);
    lemma_fold_opt(s3, "summary"@, e.summary);
}

proof fn lemma_fold_source(st: EntryState, e: EntryView)
    requires
        st.current is None,
    ensures
        entry_fold(st, source_lines(e)) == (EntryState {
            section: Some("source"@),
            source_git: Some(e.source_git),
            source_tag: match e.source_tag {
                Some(x) => Some(x),
                None => st.source_tag,
            },
            source_rev: match e.source_rev {
                Some(x) => Some(x),
                None => st.source_rev,
            },
            ..st
        }),
{
    lemma_format_words();
    let b = Seq::<char>::empty();
    let h = header_line("source"@);
    let lg = kv_line("git"@, e.source_git);
    let ot = opt_kv_lines("tag"@, e.source_tag);
    let orv = opt_kv_lines("rev"@, e.source_rev);
    assert(source_lines(e) =~= seq![b] + seq![h] + seq![lg] + ot + orv);
    lemma_fold_append(st, seq![b] + seq![h] + seq![lg] + ot, orv);
    lemma_fold_append(st, seq![b] + seq![h] + seq![lg], ot);
    lemma_fold_append(st, seq![b] + seq![h], seq![lg]);
    lemma_fold_append(st, seq![b], seq![h]);
    lemma_fold_one(st, b);
    lemma_step_blank(st);
    lemma_fold_one(st, h);
    lemma_step_header(st, "source"@);
    let s1 = entry_step(st, h);
    lemma_fold_one(s1, lg);
    lemma_step_kv(s1, "git"@, e.source_git);
    let s2 = entry_step(s1, lg);
    lemma_fold_opt(s2, "tag"@, e.source_tag);
    let s3 = entry_fold(s2, ot);
    lemma_fold_opt(s3, "rev"@, e.source_rev);
}

proof fn lemma_fold_build(st: EntryState, b: Option<Seq<char>>)
    requires
        st.current is None,
    ensures
        entry_fold(st, build_lines(b)).current is None,
        entry_fold(st, build_lines(b)) == (EntryState {
            section: entry_fold(st, build_lines(b)).section,
            build_entry: match b {
                Some(x) => Some(x),
                None => st.build_entry,
            },
            ..st
        }),
{
    match b {
        Some(x) => {
            lemma_format_words();
            let bl = Seq::<char>::empty();
            let h = header_line("build"@);
            let le = kv_line("entry"@, x);
            assert(build_lines(b) =~= seq![bl] + seq![h] + seq![le]);
            lemma_fold_append(st, seq![bl] + seq![h], seq![le]);
            lemma_fold_append(st, seq![bl], seq![h]);
            lemma_fold_one(st, bl);
            lemma_step_blank(st);
            lemma_fold_one(st, h);
            lemma_step_header(st, "build"@);
            let s1 = entry_step(st, h);
            lemma_fold_one(s1, le);
            lemma_step_kv(s1, "entry"@, x);
        },
        None => {},
    }
}

proof fn lemma_fold_pairs_deps(st: EntryState, ps: Seq<(Seq<char>, Seq<char>)>)
    requires
        st.section == Some("dependencies"@),
        plain_pairs(ps),
    ensures
        entry_fold(st, pair_lines(ps)) == (EntryState {
            dependencies: st.dependencies + ps,
            ..st
        }),
    decreases ps.len(),
{
    lemma_format_words();
    if ps.len() == 0 {
        assert(st.dependencies + ps =~= st.dependencies);
        assert(pair_lines(ps) =~= Seq::<Seq<char>>::empty());
    } else {
        let init = ps.drop_last();
        assert forall|i: int| 0 <= i < init.len() implies plain_key(#[trigger] init[i].0) && lacks(
            init[i].1,
            '\n',
        ) by {
            assert(init[i] == ps[i]);
        }
        lemma_fold_pairs_deps(st, init);
        assert(pair_lines(ps).drop_last() =~= pair_lines(init));
        let last = ps.last();
        assert(plain_key(ps[ps.len() - 1].0));
        let s1 = entry_fold(st, pair_lines(init));
        lemma_step_kv(s1, last.0, last.1);
        assert(st.dependencies + init.push(last) =~= st.dependencies + ps);
        assert(init.push(last) =~= ps);
        assert((st.dependencies + init).push((last.0, last.1)) =~= st.dependencies + ps);
    }
}

proof fn lemma_fold_pairs_dev(st: EntryState, ps: Seq<(Seq<char>, Seq<char>)>)
    requires
        st.section == Some("dev-dependencies"@),
        plain_pairs(ps),
    ensures
        entry_fold(st, pair_lines(ps)) == (EntryState {
            dev_dependencies: st.dev_dependencies + ps,
            ..st
        }),
    decreases ps.len(),
{
    lemma_format_words();
    if ps.len() == 0 {
        assert(st.dev_dependencies + ps =~= st.dev_dependencies);
        assert(pair_lines(ps) =~= Seq::<Seq<char>>::empty());
    } else {
        let init = ps.drop_last();
        assert forall|i: int| 0 <= i < init.len() implies plain_key(#[trigger] init[i].0) && lacks(
            init[i].1,
            '\n',
        ) by {
            assert(init[i] == ps[i]);
        }
        lemma_fold_pairs_dev(st, init);
        assert(pair_lines(ps).drop_last() =~= pair_lines(init));
        let last = ps.last();
        assert(plain_key(ps[ps.len() - 1].0));
        let s1 = entry_fold(st, pair_lines(init));
        lemma_step_kv(s1, last.0, last.1);
        assert((st.dev_dependencies + init).push((last.0, last.1)) =~= st.dev_dependencies + ps);
    }
}

proof fn lemma_fold_deps_table(st: EntryState, ps: Seq<(Seq<char>, Seq<char>)>)
    requires
        st.current is None,
        plain_pairs(ps),
    ensures
        entry_fold(st, table_lines("dependencies"@, ps)) == (EntryState {
            section: entry_fold(st, table_lines("dependencies"@, ps)).section,
            dependencies: st.dependencies + ps,
            ..st
        }),
{
    lemma_format_words();
    if ps.len() == 0 {
        assert(st.dependencies + ps =~= st.dependencies);
    } else {
        let bl = Seq::<char>::empty();
        let h = header_line("dependencies"@);
        assert(table_lines("dependencies"@, ps) =~= seq![bl] + seq![h] + pair_lines(ps));
        lemma_fold_append(st, seq![bl] + seq![h], pair_lines(ps));
        lemma_fold_append(st, seq![bl], seq![h]);
        lemma_fold_one(st, bl);
        lemma_step_blank(st);
        lemma_fold_one(st, h);
        lemma_step_header(st, "dependencies"@);
        lemma_fold_pairs_deps(entry_step(st, h), ps);
    }
}

proof fn lemma_fold_dev_table(st: EntryState, ps: Seq<(Seq<char>, Seq<char>)>)
    requires
        st.current is None,
        plain_pairs(ps),
    ensures
        entry_fold(st, table_lines("dev-dependencies"@, ps)) == (EntryState {
            section: entry_fold(st, table_lines("dev-dependencies"@, ps)).section,
            dev_dependencies: st.dev_dependencies + ps,
            ..st
        }),
{
    lemma_format_words();
    if ps.len() == 0 {
        assert(st.dev_dependencies + ps =~= st.dev_dependencies);
    } else {
        let bl = Seq::<char>::empty();
        let h = header_line("dev-dependencies"@);
        assert(table_lines("dev-dependencies"@, ps) =~= seq![bl] + seq![h] + pair_lines(ps));
        lemma_fold_append(st, seq![bl] + seq![h], pair_lines(ps));
        lemma_fold_append(st, seq![bl], seq![h]);
        lemma_fold_one(st, bl);
        lemma_step_blank(st);
        lemma_fold_one(st, h);
        lemma_step_header(st, "dev-dependencies"@);
        lemma_fold_pairs_dev(entry_step(st, h), ps);
    }
}

/// Reading the `[[artifacts]]` table of `a` finishes the artifact being read and holds `a` as
/// the current one.
#[verifier::spinoff_prover]
#[verifier::rlimit(60)]
proof fn lemma_fold_artifact(st: EntryState, a: ArtifactView)
    ensures
        entry_fold(st, artifact_lines(a)) == (EntryState {
            section: Some("artifacts"@),
            current: Some(a),
            ..flush(st)
        }),
{
    lemma_format_words();
    let bl = Seq::<char>::empty();
    let h = array_header_line("artifacts"@);
    let lt = kv_line("target"@, a.target);
    let lu = kv_line("url"@, a.url);
    let oc = opt_kv_lines("checksum"@, a.checksum);
    assert(artifact_lines(a) =~= seq![bl] + seq![h] + seq![lt] + seq![lu] + oc);
    lemma_fold_append(st, seq![bl] + seq![h] + seq![lt] + seq![lu], oc);
    lemma_fold_append(st, seq![bl] + seq![h] + seq![lt], seq![lu]);
    lemma_fold_append(st, seq![bl] + seq![h], seq![lt]);
    lemma_fold_append(st, seq![bl], seq![h]);
    lemma_fold_one(st, bl);
    lemma_step_blank(st);
    lemma_fold_one(st, h);
    lemma_array_header_line("artifacts"@);
    let s1 = entry_step(st, h);
    assert(s1 == (EntryState {
        section: Some("artifacts"@),
        current: Some(empty_artifact()),
        ..flush(st)
    }));
    lemma_fold_one(s1, lt);
    lemma_step_kv(s1, "target"@, a.target);
    let s2 = entry_step(s1, lt);
    lemma_fold_one(s2, lu);
    lemma_step_kv(s2, "url"@, a.url);
    let s3 = entry_step(s2, lu);
    lemma_fold_opt(s3, "checksum"@, a.checksum);
    assert(ArtifactView { target: a.target, url: a.url, checksum: a.checksum } == a);
}

proof fn lemma_fold_artifacts(st: EntryState, a: Seq<ArtifactView>)
    requires
        st.current is None,
    ensures
        a.len() == 0 ==> entry_fold(st, artifacts_lines(a)) == st,
        a.len() > 0 ==> entry_fold(st, artifacts_lines(a)) == (EntryState {
            section: Some("artifacts"@),
            artifacts: st.artifacts + a.drop_last(),
            current: Some(a.last()),
            ..st
        }),
    decreases a.len(),
{
    if a.len() > 0 {
        let init = a.drop_last();
        lemma_fold_artifacts(st, init);
        lemma_fold_append(st, artifacts_lines(init), artifact_lines(a.last()));
        let s1 = entry_fold(st, artifacts_lines(init));
        lemma_fold_artifact(s1, a.last());
        if init.len() == 0 {
            assert(st.artifacts + init =~= st.artifacts);
        } else {
            assert(init.drop_last().push(init.last()) =~= init);
            assert((st.artifacts + init.drop_last()).push(init.last()) =~= st.artifacts + init);
        }
    }
}

/// Reading the `spool.toml` text that `to_toml` writes for an entry gives that entry back,
/// where no string of the entry holds a line break and every dependency name is a plain key:
/// no `=` in it, no whitespace at either end and no `#` in front.
pub proof fn lemma_to_toml_parse_roundtrip(e: SpoolEntry)
    requires
        plain_entry(e@),
    ensures
        spec_parse_entry(spec_entry_toml(e@)) == Some(e@),
{
    let ev = e@;
    let ls = entry_lines(ev);
    lemma_entry_lines_lack(ev);
    lemma_split_unlines(ls);
    let st0 = initial_state();
    lemma_fold_append(st0, ls, seq![Seq::<char>::empty()]);
    assert(ls.push(Seq::<char>::empty()) =~= ls + seq![Seq::<char>::empty()]);
    lemma_fold_one(entry_fold(st0, ls), Seq::<char>::empty());
    lemma_step_blank(entry_fold(st0, ls));
    let p = package_lines(ev);
    let s = source_lines(ev);
    let b = build_lines(ev.build_entry);
    let d = table_lines("dependencies"@, ev.dependencies);
    let dd = table_lines("dev-dependencies"@, ev.dev_dependencies);
    let a = artifacts_lines(ev.artifacts);
    lemma_fold_append(st0, p + s + b + d + dd, a);
    lemma_fold_append(st0, p + s + b + d, dd);
    lemma_fold_append(st0, p + s + b, d);
    lemma_fold_append(st0, p + s, b);
    lemma_fold_append(st0, p, s);
    lemma_fold_package(st0, ev);
    let s1 = entry_fold(st0, p);
    lemma_fold_source(s1, ev);
    let s2 = entry_fold(s1, s);
    lemma_fold_build(s2, ev.build_entry);
    let s3 = entry_fold(s2, b);
    lemma_fold_deps_table(s3, ev.dependencies);
    let s4 = entry_fold(s3, d);
    assert(s4.current is None);
    lemma_fold_dev_table(s4, ev.dev_dependencies);
    let s5 = entry_fold(s4, dd);
    assert(s5.current is None);
    lemma_fold_artifacts(s5, ev.artifacts);
    let s6 = entry_fold(s5, a);
    assert(entry_fold(st0, ls) == s6);
    let f = flush(s6);
    assert(s3.dependencies =~= Seq::<(Seq<char>, Seq<char>)>::empty());
    assert(Seq::<(Seq<char>, Seq<char>)>::empty() + ev.dependencies =~= ev.dependencies);
    assert(Seq::<(Seq<char>, Seq<char>)>::empty() + ev.dev_dependencies =~= ev.dev_dependencies);
    if ev.artifacts.len() > 0 {
        assert(Seq::<ArtifactView>::empty() + ev.artifacts.drop_last() =~= ev.artifacts.drop_last());
        assert(ev.artifacts.drop_last().push(ev.artifacts.last()) =~= ev.artifacts);
    }
    assert(f.artifacts =~= ev.artifacts);
    assert(f.dependencies =~= ev.dependencies);
    assert(f.dev_dependencies =~= ev.dev_dependencies);
    assert(finish(s6) == Some(ev));
}

/// A comment line carries nothing: where `a` is empty or ends with a line break, so that `l`
/// is a whole line, and the trimmed `l` starts with `#`, reading `a`, then `l` with its line
/// break, then any rest `b` gives what reading `a` followed by `b` gives.
pub proof fn lemma_comment_line_ignored(a: Seq<char>, l: Seq<char>, b: Seq<char>)
    requires
        a.len() == 0 || a.last() == '\n',
        lacks(l, '\n'),
        trim(l).len() > 0,
        trim(l)[0] == '#',
    ensures
        spec_parse_entry(a + l + seq!['\n'] + b) == spec_parse_entry(a + b),
{
    let rest = l + seq!['\n'] + b;
    assert(a + l + seq!['\n'] + b =~= a + rest);
    lemma_split_lines_concat(a, rest);
    lemma_split_lines_concat(a, b);
    lemma_split_lines_first_line(l, b);
    let d = split_lines(a).drop_last();
    let tail = split_lines(b);
    assert(d + (seq![l] + tail) =~= (d + seq![l]) + tail);
    let st0 = initial_state();
    lemma_fold_append(st0, d + seq![l], tail);
    lemma_fold_append(st0, d, seq![l]);
    lemma_fold_one(entry_fold(st0, d), l);
    lemma_fold_append(st0, d, tail);
}

} // verus!
