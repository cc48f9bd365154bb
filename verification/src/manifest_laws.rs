//! What reading a written `suture.toml` gives back.
use vstd::prelude::*;

use crate::kv::{header_line, kv_line, lemma_header_line, lemma_kv_line, plain_key, plain_section};
use crate::schema::{
    dependency_lines, keys_sorted, lemma_manifest_fold_append, lemma_pairs_map_push,
    manifest_assign, manifest_fold, manifest_initial, manifest_lines, manifest_package_lines,
    manifest_step, model, opt_escaped, pairs_map, spec_manifest_toml, spec_parse_manifest,
    ManifestModel, ManifestState, ManifestView, ProjectManifest,
};
use crate::spool_entry::{opt_kv_lines, pair_lines};
use crate::text::{
    escaped, lacks, lemma_escaped_plain, lemma_split_lines_concat, lemma_split_lines_last_empty,
    lemma_split_unlines, lemma_trim_fixed, split_lines, unlines,
};

verus! {

/// A value that a manifest writes and reads back unchanged: no line break, `"` or `\`.
pub open spec fn plain_value(v: Seq<char>) -> bool {
    lacks(v, '\n') && lacks(v, '"') && lacks(v, '\\')
}

/// An optional plain value.
pub open spec fn opt_plain_value(v: Option<Seq<char>>) -> bool {
    match v {
        Some(x) => plain_value(x),
        None => true,
    }
}

/// A manifest whose `suture.toml` text reads back as itself: plain package name, version and
/// dependency versions, and dependency names that are plain keys.
pub open spec fn plain_manifest(m: ManifestView) -> bool {
    &&& opt_plain_value(m.package_name)
    &&& opt_plain_value(m.package_version)
    &&& forall|i: int|
        0 <= i < m.dependencies.len() ==> plain_key(#[trigger] m.dependencies[i].0) && plain_value(
            m.dependencies[i].1,
        )
}

proof fn lemma_words()
    ensures
        plain_section("package"@),
        plain_section("dependencies"@),
        lacks("package"@, '\n'),
        lacks("dependencies"@, '\n'),
        plain_key("name"@),
        plain_key("version"@),
        "package"@.len() == 7,
        "dependencies"@.len() == 12,
        "name"@ != "version"@,
{
    reveal_strlit("package");
    reveal_strlit("dependencies");
    reveal_strlit("name");
    reveal_strlit("version");
    assert("name"@[0] != "version"@[0]);
    assert forall|i: int| 0 <= i < "package"@.len() implies ("package"@[i] != '\n' && "package"@[i]
        != '=') by {}
    assert forall|i: int| 0 <= i < "dependencies"@.len() implies ("dependencies"@[i] != '\n'
        && "dependencies"@[i] != '=') by {}
    assert forall|i: int| 0 <= i < "name"@.len() implies ("name"@[i] != '\n' && "name"@[i] != '=') by {}
    assert forall|i: int| 0 <= i < "version"@.len() implies ("version"@[i] != '\n' && "version"@[i]
        != '=') by {}
}

proof fn lemma_line_lacks(k: Seq<char>, v: Seq<char>)
    requires
        lacks(k, '\n'),
        lacks(v, '\n'),
    ensures
        lacks(kv_line(k, v), '\n'),
{
    let l = kv_line(k, v);
    assert forall|i: int| 0 <= i < l.len() implies l[i] != '\n' by {
        if i < k.len() {
            assert(l[i] == k[i]);
        } else if i >= k.len() + 4 && i < k.len() + 4 + v.len() {
            assert(l[i] == v[i - k.len() - 4]);
        }
    }
}

proof fn lemma_header_lacks(n: Seq<char>)
    requires
        lacks(n, '\n'),
    ensures
        lacks(header_line(n), '\n'),
{
    let l = header_line(n);
    assert forall|i: int| 0 <= i < l.len() implies l[i] != '\n' by {
        if 1 <= i < n.len() + 1 {
            assert(l[i] == n[i - 1]);
        }
    }
}

proof fn lemma_manifest_lines_lack(m: ManifestView)
    requires
        plain_manifest(m),
    ensures
        forall|i: int| 0 <= i < manifest_lines(m).len() ==> lacks(#[trigger] manifest_lines(m)[i], '\n'),
{
    lemma_words();
    lemma_header_lacks("package"@);
    lemma_header_lacks("dependencies"@);
    match m.package_name {
        Some(x) => {
            lemma_escaped_plain(x);
            lemma_line_lacks("name"@, x);
        },
        None => {},
    }
    match m.package_version {
        Some(x) => {
            lemma_escaped_plain(x);
            lemma_line_lacks("version"@, x);
        },
        None => {},
    }
    let ls = manifest_lines(m);
    let p = manifest_package_lines(m);
    let d = dependency_lines(m.dependencies);
    assert forall|i: int| 0 <= i < ls.len() implies lacks(#[trigger] ls[i], '\n') by {
        if i < p.len() {
            assert(ls[i] == p[i]);
        } else if i == p.len() {
            assert(ls[i] == header_line("dependencies"@));
        } else {
            let j = i - p.len() - 1;
            assert(ls[i] == d[j]);
            assert(plain_key(m.dependencies[j].0));
            lemma_escaped_plain(m.dependencies[j].1);
            lemma_line_lacks(m.dependencies[j].0, m.dependencies[j].1);
        }
    }
}

proof fn lemma_fold_one(st: ManifestState, l: Seq<char>)
    ensures
        manifest_fold(st, seq![l]) == manifest_step(st, l),
{
    assert(seq![l].drop_last() =~= Seq::<Seq<char>>::empty());
    assert(manifest_fold(st, Seq::<Seq<char>>::empty()) == Some(st));
}

proof fn lemma_step_kv(st: ManifestState, k: Seq<char>, v: Seq<char>)
    requires
        plain_key(k),
    ensures
        manifest_step(st, kv_line(k, v)) == Some(manifest_assign(st, k, v)),
{
    lemma_kv_line(k, v);
}

proof fn lemma_step_header(st: ManifestState, n: Seq<char>)
    requires
        plain_section(n),
    ensures
        manifest_step(st, header_line(n)) == Some(ManifestState { section: Some(n), ..st }),
{
    lemma_header_line(n);
}

proof fn lemma_fold_opt(st: ManifestState, k: Seq<char>, v: Option<Seq<char>>)
    requires
        plain_key(k),
        opt_plain_value(v),
    ensures
        manifest_fold(st, opt_kv_lines(k, opt_escaped(v))) == Some(
            match v {
                Some(x) => manifest_assign(st, k, x),
                None => st,
            },
        ),
{
    match v {
        Some(x) => {
            lemma_escaped_plain(x);
            lemma_fold_one(st, kv_line(k, x));
            lemma_step_kv(st, k, x);
        },
        None => {},
    }
}

proof fn lemma_fold_package(m: ManifestView)
    requires
        plain_manifest(m),
    ensures
        manifest_fold(manifest_initial(), manifest_package_lines(m)) == Some(
            ManifestState {
                section: if m.package_name is Some || m.package_version is Some {
                    Some("package"@)
                } else {
                    None
                },
                package_name: m.package_name,
                package_version: m.package_version,
                dependencies: Map::empty(),
            },
        ),
{
    lemma_words();
    let st = manifest_initial();
    if m.package_name is Some || m.package_version is Some {
        let h = seq![header_line("package"@)];
        let n = opt_kv_lines("name"@, opt_escaped(m.package_name));
        let v = opt_kv_lines("version"@, opt_escaped(m.package_version));
        let b = seq![Seq::<char>::empty()];
        assert(manifest_package_lines(m) == h + n + v + b);
        lemma_manifest_fold_append(st, h + n + v, b);
        lemma_manifest_fold_append(st, h + n, v);
        lemma_manifest_fold_append(st, h, n);
        lemma_fold_one(st, header_line("package"@));
        lemma_step_header(st, "package"@);
        let s1 = ManifestState { section: Some("package"@), ..st };
        lemma_fold_opt(s1, "name"@, m.package_name);
        let s2 = match m.package_name {
            Some(x) => manifest_assign(s1, "name"@, x),
            None => s1,
        };
        lemma_fold_opt(s2, "version"@, m.package_version);
        let s3 = match m.package_version {
            Some(x) => manifest_assign(s2, "version"@, x),
            None => s2,
        };
        lemma_fold_one(s3, Seq::<char>::empty());
        lemma_trim_fixed(Seq::<char>::empty());
    } else {
        assert(manifest_package_lines(m) == Seq::<Seq<char>>::empty());
    }
}

proof fn lemma_fold_dependencies(st: ManifestState, ps: Seq<(Seq<char>, Seq<char>)>)
    requires
        st.section == Some("dependencies"@),
        st.dependencies == Map::<Seq<char>, Seq<char>>::empty(),
        keys_sorted(ps),
        forall|i: int| 0 <= i < ps.len() ==> plain_key(#[trigger] ps[i].0) && plain_value(ps[i].1),
    ensures
        manifest_fold(st, dependency_lines(ps)) == Some(
            ManifestState { dependencies: pairs_map(ps), ..st },
        ),
    decreases ps.len(),
{
    lemma_words();
    if ps.len() == 0 {
        assert(pairs_map(ps) =~= Map::<Seq<char>, Seq<char>>::empty());
        assert(dependency_lines(ps) =~= Seq::<Seq<char>>::empty());
    } else {
        let init = ps.drop_last();
        let last = ps.last();
        assert(keys_sorted(init));
        assert forall|i: int| 0 <= i < init.len() implies plain_key(#[trigger] init[i].0)
            && plain_value(init[i].1) by {
            assert(init[i] == ps[i]);
        }
        lemma_fold_dependencies(st, init);
        assert(dependency_lines(ps) =~= dependency_lines(init).push(kv_line(last.0, escaped(last.1))));
        assert(dependency_lines(ps).drop_last() =~= dependency_lines(init));
        assert(plain_key(ps[ps.len() - 1].0));
        lemma_escaped_plain(last.1);
        let s1 = ManifestState { dependencies: pairs_map(init), ..st };
        lemma_step_kv(s1, last.0, last.1);
        assert forall|i: int| 0 <= i < init.len() implies crate::order::key_lt(
            #[trigger] init[i].0,
            last.0,
        ) by {
            assert(crate::order::key_lt(ps[i].0, ps[ps.len() - 1].0));
        }
        lemma_pairs_map_push(init, last.0, last.1);
        assert(init.push((last.0, last.1)) =~= ps);
    }
}

/// Reading the `suture.toml` text that `to_toml` writes for a manifest gives back what the
/// manifest says, where its package name, version and dependency versions hold no line break,
/// `"` or `\`, and every dependency name is a plain key: no `=` or line break in it, no
/// whitespace at either end and no `#` in front.
pub proof fn lemma_to_toml_parse_roundtrip(m: ProjectManifest)
    requires
        m.wf(),
        plain_manifest(m@),
    ensures
        spec_parse_manifest(spec_manifest_toml(m@)) == Some(model(m@)),
{
    let mv = m@;
    let ls = manifest_lines(mv);
    lemma_words();
    lemma_manifest_lines_lack(mv);
    lemma_split_unlines(ls);
    let st0 = manifest_initial();
    let p = manifest_package_lines(mv);
    let h = seq![header_line("dependencies"@)];
    let d = dependency_lines(mv.dependencies);
    lemma_manifest_fold_append(st0, ls, seq![Seq::<char>::empty()]);
    assert(ls.push(Seq::<char>::empty()) =~= ls + seq![Seq::<char>::empty()]);
    lemma_manifest_fold_append(st0, p + h, d);
    lemma_manifest_fold_append(st0, p, h);
    lemma_fold_package(mv);
    let s1 = ManifestState {
        section: if mv.package_name is Some || mv.package_version is Some {
            Some("package"@)
        } else {
            None
        },
        package_name: mv.package_name,
        package_version: mv.package_version,
        dependencies: Map::empty(),
    };
    lemma_fold_one(s1, header_line("dependencies"@));
    lemma_step_header(s1, "dependencies"@);
    let s2 = ManifestState { section: Some("dependencies"@), ..s1 };
    lemma_fold_dependencies(s2, mv.dependencies);
    let s3 = ManifestState { dependencies: pairs_map(mv.dependencies), ..s2 };
    lemma_fold_one(s3, Seq::<char>::empty());
    lemma_trim_fixed(Seq::<char>::empty());
}

proof fn lemma_fold_other_pairs(st: ManifestState, ps: Seq<(Seq<char>, Seq<char>)>)
    requires
        st.section is Some,
        st.section->0 != "package"@,
        st.section->0 != "dependencies"@,
        forall|i: int| 0 <= i < ps.len() ==> plain_key(#[trigger] ps[i].0),
    ensures
        manifest_fold(st, pair_lines(ps)) == Some(st),
    decreases ps.len(),
{
    if ps.len() == 0 {
        assert(pair_lines(ps) =~= Seq::<Seq<char>>::empty());
    } else {
        let init = ps.drop_last();
        let last = ps.last();
        assert forall|i: int| 0 <= i < init.len() implies plain_key(#[trigger] init[i].0) by {
            assert(init[i] == ps[i]);
        }
        lemma_fold_other_pairs(st, init);
        assert(pair_lines(ps).drop_last() =~= pair_lines(init));
        assert(pair_lines(ps).last() == kv_line(last.0, last.1));
        assert(plain_key(ps[ps.len() - 1].0));
        lemma_step_kv(st, last.0, last.1);
    }
}

proof fn lemma_section_lines_lack(n: Seq<char>, ps: Seq<(Seq<char>, Seq<char>)>)
    requires
        lacks(n, '\n'),
        forall|i: int| 0 <= i < ps.len() ==> plain_key(#[trigger] ps[i].0) && lacks(ps[i].1, '\n'),
    ensures
        forall|i: int|
            0 <= i < (seq![header_line(n)] + pair_lines(ps)).len() ==> lacks(
                #[trigger] (seq![header_line(n)] + pair_lines(ps))[i],
                '\n',
            ),
{
    let ls = seq![header_line(n)] + pair_lines(ps);
    lemma_header_lacks(n);
    assert forall|i: int| 0 <= i < ls.len() implies lacks(#[trigger] ls[i], '\n') by {
        if i > 0 {
            assert(ls[i] == kv_line(ps[i - 1].0, ps[i - 1].1));
            assert(plain_key(ps[i - 1].0));
            lemma_line_lacks(ps[i - 1].0, ps[i - 1].1);
        }
    }
}

/// Key-value lines under a section other than `[package]` and `[dependencies]` carry nothing.
/// Where `a` is empty or ends with a line break, `n` is the name of such a section, and each pair
/// has a plain key and a value without line breaks: reading `a`, then the header `[n]` and one
/// line `k = "v"` per pair, then any rest `b`, gives what reading `a`, `[n]` and `b` gives; and
/// with no rest, it gives what reading `a` alone gives, dependencies included.
pub proof fn lemma_other_section_ignored(
    a: Seq<char>,
    n: Seq<char>,
    ps: Seq<(Seq<char>, Seq<char>)>,
    b: Seq<char>,
)
    requires
        a.len() == 0 || a.last() == '\n',
        plain_section(n),
        lacks(n, '\n'),
        n != "package"@,
        n != "dependencies"@,
        forall|i: int| 0 <= i < ps.len() ==> plain_key(#[trigger] ps[i].0) && lacks(ps[i].1, '\n'),
    ensures
        spec_parse_manifest(a + unlines(seq![header_line(n)] + pair_lines(ps)) + b)
            == spec_parse_manifest(a + unlines(seq![header_line(n)]) + b),
        spec_parse_manifest(a + unlines(seq![header_line(n)] + pair_lines(ps)))
            == spec_parse_manifest(a),
{
    let h = seq![header_line(n)];
    let l = h + pair_lines(ps);
    let e = Seq::<(Seq<char>, Seq<char>)>::empty();
    assert(h + pair_lines(e) =~= h);
    lemma_section_lines_lack(n, ps);
    lemma_section_lines_lack(n, e);
    lemma_split_unlines(l);
    lemma_split_unlines(h);
    let x = a + unlines(l);
    let y = a + unlines(h);
    assert(l.drop_last() + seq![l.last()] =~= l);
    assert(x.last() == '\n');
    assert(y.last() == '\n');
    lemma_split_lines_concat(a, unlines(l));
    lemma_split_lines_concat(a, unlines(h));
    lemma_split_lines_concat(x, b);
    lemma_split_lines_concat(y, b);
    lemma_split_lines_last_empty(a);
    let d = split_lines(a).drop_last();
    let tb = split_lines(b);
    let last = seq![Seq::<char>::empty()];
    assert(split_lines(x) =~= d + l.push(Seq::<char>::empty()));
    assert(split_lines(x).drop_last() =~= d + l);
    assert(split_lines(y).drop_last() =~= d + h);
    assert(split_lines(a) =~= d + last);
    assert(split_lines(x) =~= (d + l) + last);
    assert(split_lines(y) =~= (d + h) + last);
    let st0 = manifest_initial();
    lemma_manifest_fold_append(st0, d + l, tb);
    lemma_manifest_fold_append(st0, d + h, tb);
    lemma_manifest_fold_append(st0, d + l, last);
    lemma_manifest_fold_append(st0, d + h, last);
    lemma_manifest_fold_append(st0, d, last);
    lemma_manifest_fold_append(st0, d, l);
    lemma_manifest_fold_append(st0, d, h);
    match manifest_fold(st0, d) {
        Some(s) => {
            lemma_words();
            lemma_manifest_fold_append(s, h, pair_lines(ps));
            lemma_fold_one(s, header_line(n));
            lemma_step_header(s, n);
            let s1 = ManifestState { section: Some(n), ..s };
            lemma_fold_other_pairs(s1, ps);
            lemma_fold_one(s1, Seq::<char>::empty());
            lemma_fold_one(s, Seq::<char>::empty());
            lemma_trim_fixed(Seq::<char>::empty());
        },
        None => {},
    }
    assert(x + Seq::<char>::empty() =~= x);
}

/// A line `k = "v"` under `[dependencies]` makes `k` a dependency at version `v`: where `a` is
/// empty or ends with a line break, `k` is a plain key and `v` holds no line break, reading `a`
/// and then the header `[dependencies]` and that line gives what reading `a` gives with `k` set
/// to `v` among the dependencies, and nothing else changed.
pub proof fn lemma_dependency_line_read(a: Seq<char>, k: Seq<char>, v: Seq<char>)
    requires
        a.len() == 0 || a.last() == '\n',
        plain_key(k),
        lacks(v, '\n'),
    ensures
        spec_parse_manifest(a + unlines(seq![header_line("dependencies"@), kv_line(k, v)]))
            == match spec_parse_manifest(a) {
            Some(m) => Some(
                (ManifestModel { dependencies: m.dependencies.insert(k, v), ..m }),
            ),
            None => None,
        },
{
    lemma_words();
    let l = seq![header_line("dependencies"@), kv_line(k, v)];
    lemma_header_lacks("dependencies"@);
    lemma_line_lacks(k, v);
    assert forall|i: int| 0 <= i < l.len() implies lacks(#[trigger] l[i], '\n') by {}
    lemma_split_unlines(l);
    lemma_split_lines_concat(a, unlines(l));
    lemma_split_lines_last_empty(a);
    let d = split_lines(a).drop_last();
    let last = seq![Seq::<char>::empty()];
    assert(split_lines(a) =~= d + last);
    assert(split_lines(a + unlines(l)) =~= (d + l) + last);
    let st0 = manifest_initial();
    lemma_manifest_fold_append(st0, d + l, last);
    lemma_manifest_fold_append(st0, d, last);
    lemma_manifest_fold_append(st0, d, l);
    match manifest_fold(st0, d) {
        Some(s) => {
            let h = seq![header_line("dependencies"@)];
            assert(l =~= h + seq![kv_line(k, v)]);
            lemma_manifest_fold_append(s, h, seq![kv_line(k, v)]);
            lemma_fold_one(s, header_line("dependencies"@));
            lemma_step_header(s, "dependencies"@);
            let s1 = ManifestState { section: Some("dependencies"@), ..s };
            lemma_fold_one(s1, kv_line(k, v));
            lemma_step_kv(s1, k, v);
            let s2 = manifest_assign(s1, k, v);
            lemma_fold_one(s2, Seq::<char>::empty());
            lemma_fold_one(s, Seq::<char>::empty());
            lemma_trim_fixed(Seq::<char>::empty());
        },
        None => {},
    }
}

} // verus!
