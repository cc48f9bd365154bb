//! The project manifest, `suture.toml`: an optional package name and version, and the
//! dependencies of the project, kept in key order.
use vstd::prelude::*;

use crate::kv::{
    header, header_line, header_name, is_header, is_skipped, kv_line, parse_key_value,
    push_blank, push_header, push_kv, section_name, skipped, spec_parse_key_value,
};
use crate::order::{
    key_less, key_lt, lemma_key_lt_asymmetric, lemma_key_lt_irreflexive, lemma_key_lt_total,
    lemma_key_lt_transitive,
};
use crate::spool_entry::{opt_kv_lines, pairs_view};
use crate::paths::{join, join_path};
use crate::text::{
    chars_eq_str, chars_of, escape_quotes, escaped, lemma_unlines_append, lines_of, opt_view,
    push_str, split_lines, string_of, trim, trim_chars, unlines, views,
};

verus! {

/// The manifest of a project.
#[derive(Debug, Clone, PartialEq, Eq)]
pub struct ProjectManifest {
    pub package_name: Option<String>,
    pub package_version: Option<String>,
    dependencies: Vec<(String, String)>,
}

/// The mathematical value of a [`ProjectManifest`]; its dependencies are listed in key order.
pub struct ManifestView {
    pub package_name: Option<Seq<char>>,
    pub package_version: Option<Seq<char>>,
    pub dependencies: Seq<(Seq<char>, Seq<char>)>,
}

/// What a manifest says, with its dependencies as a map from name to version.
pub struct ManifestModel {
    pub package_name: Option<Seq<char>>,
    pub package_version: Option<Seq<char>>,
    pub dependencies: Map<Seq<char>, Seq<char>>,
}

/// The keys of `ps` are strictly increasing.
pub open spec fn keys_sorted(ps: Seq<(Seq<char>, Seq<char>)>) -> bool {
    forall|i: int, j: int| 0 <= i < j < ps.len() ==> key_lt(#[trigger] ps[i].0, #[trigger] ps[j].0)
}

/// `k` is the key of some pair of `ps`.
pub open spec fn has_key(ps: Seq<(Seq<char>, Seq<char>)>, k: Seq<char>) -> bool {
    exists|i: int| 0 <= i < ps.len() && #[trigger] ps[i].0 == k
}

/// A position of a pair with key `k` in `ps`, where there is one.
pub open spec fn key_index(ps: Seq<(Seq<char>, Seq<char>)>, k: Seq<char>) -> int {
    choose|i: int| 0 <= i < ps.len() && #[trigger] ps[i].0 == k
}

/// The map from each key of `ps` to its value.
pub open spec fn pairs_map(ps: Seq<(Seq<char>, Seq<char>)>) -> Map<Seq<char>, Seq<char>> {
    Map::new(|k: Seq<char>| has_key(ps, k), |k: Seq<char>| ps[key_index(ps, k)].1)
}

/// What a manifest value says.
pub open spec fn model(m: ManifestView) -> ManifestModel {
    ManifestModel {
        package_name: m.package_name,
        package_version: m.package_version,
        dependencies: pairs_map(m.dependencies),
    }
}

impl View for ProjectManifest {
    type V = ManifestView;

    closed spec fn view(&self) -> ManifestView {
        ManifestView {
            package_name: opt_view(self.package_name),
            package_version: opt_view(self.package_version),
            dependencies: pairs_view(self.dependencies@),
        }
    }
}

impl ProjectManifest {
    /// The dependencies are kept in strictly increasing key order.
    pub open spec fn wf(&self) -> bool {
        keys_sorted(self@.dependencies)
    }

    /// The dependencies as a map from name to version.
    pub open spec fn dependency_map(&self) -> Map<Seq<char>, Seq<char>> {
        pairs_map(self@.dependencies)
    }
}

// ---------------------------------------------------------------------------------------------
// Facts about sorted pair lists
// ---------------------------------------------------------------------------------------------

/// In a sorted list, the pair at `i` is what the map holds for its key.
pub proof fn lemma_pairs_map_at(ps: Seq<(Seq<char>, Seq<char>)>, i: int)
    requires
        keys_sorted(ps),
        0 <= i < ps.len(),
    ensures
        pairs_map(ps).contains_key(ps[i].0),
        pairs_map(ps)[ps[i].0] == ps[i].1,
{
    let k = ps[i].0;
    assert(has_key(ps, k));
    let j = key_index(ps, k);
    if j < i {
        assert(key_lt(ps[j].0, ps[i].0));
        lemma_key_lt_irreflexive(k);
    } else if i < j {
        assert(key_lt(ps[i].0, ps[j].0));
        lemma_key_lt_irreflexive(k);
    }
    assert(j == i);
    assert(pairs_map(ps)[k] == ps[j].1);
}

/// Two sorted lists with the same map are the same list.
pub proof fn lemma_sorted_pairs_unique(a: Seq<(Seq<char>, Seq<char>)>, b: Seq<(Seq<char>, Seq<char>)>)
    requires
        keys_sorted(a),
        keys_sorted(b),
        pairs_map(a) == pairs_map(b),
    ensures
        a == b,
    decreases a.len() + b.len(),
{
    if a.len() == 0 || b.len() == 0 {
        if a.len() > 0 {
            lemma_pairs_map_at(a, 0);
        }
        if b.len() > 0 {
            lemma_pairs_map_at(b, 0);
        }
        assert(a =~= b);
    } else {
        let la = a.last();
        let lb = b.last();
        lemma_pairs_map_at(a, a.len() - 1);
        lemma_pairs_map_at(b, b.len() - 1);
        // the last key of each list is the largest key of the shared map
        assert(has_key(b, la.0));
        let ib = choose|i: int| 0 <= i < b.len() && #[trigger] b[i].0 == la.0;
        assert(has_key(a, lb.0));
        let ia = choose|i: int| 0 <= i < a.len() && #[trigger] a[i].0 == lb.0;
        if ib < b.len() - 1 {
            assert(key_lt(b[ib].0, b[b.len() - 1].0));
            if ia < a.len() - 1 {
                assert(key_lt(a[ia].0, a[a.len() - 1].0));
                lemma_key_lt_asymmetric(la.0, lb.0);
            } else {
                lemma_key_lt_irreflexive(la.0);
            }
        }
        if ia < a.len() - 1 {
            assert(key_lt(a[ia].0, a[a.len() - 1].0));
            if ib < b.len() - 1 {
                assert(key_lt(b[ib].0, b[b.len() - 1].0));
                lemma_key_lt_asymmetric(la.0, lb.0);
            } else {
                lemma_key_lt_irreflexive(lb.0);
            }
        }
        assert(la.0 == lb.0);
        assert(la == lb);
        let a0 = a.drop_last();
        let b0 = b.drop_last();
        assert(keys_sorted(a0));
        assert(keys_sorted(b0));
        lemma_pairs_map_drop_last(a);
        lemma_pairs_map_drop_last(b);
        lemma_sorted_pairs_unique(a0, b0);
        assert(a =~= a0.push(la));
        assert(b =~= b0.push(lb));
    }
}

/// Removing the last pair of a sorted list removes its key from the map.
pub proof fn lemma_pairs_map_drop_last(ps: Seq<(Seq<char>, Seq<char>)>)
    requires
        keys_sorted(ps),
        ps.len() > 0,
    ensures
        pairs_map(ps.drop_last()) == pairs_map(ps).remove(ps.last().0),
{
    let p = ps.drop_last();
    let k = ps.last().0;
    assert(keys_sorted(p));
    assert forall|x: Seq<char>| #[trigger] pairs_map(p).contains_key(x) == pairs_map(ps).remove(
        k,
    ).contains_key(x) by {
        if has_key(p, x) {
            let i = choose|i: int| 0 <= i < p.len() && #[trigger] p[i].0 == x;
            assert(ps[i].0 == x);
            assert(key_lt(ps[i].0, ps[ps.len() - 1].0));
            lemma_key_lt_irreflexive(x);
            assert(has_key(ps, x));
        }
        if has_key(ps, x) && x != k {
            let i = choose|i: int| 0 <= i < ps.len() && #[trigger] ps[i].0 == x;
            assert(i != ps.len() - 1);
            assert(p[i].0 == x);
        }
    }
    assert forall|x: Seq<char>| #[trigger] pairs_map(p).contains_key(x) implies pairs_map(p)[x]
        == pairs_map(ps)[x] by {
        let i = choose|i: int| 0 <= i < p.len() && #[trigger] p[i].0 == x;
        lemma_pairs_map_at(p, i);
        lemma_pairs_map_at(ps, i);
    }
    assert(pairs_map(p) =~= pairs_map(ps).remove(k));
}

/// Appending a pair whose key is larger than every key of a sorted list adds it to the map.
pub proof fn lemma_pairs_map_push(ps: Seq<(Seq<char>, Seq<char>)>, k: Seq<char>, v: Seq<char>)
    requires
        keys_sorted(ps),
        forall|i: int| 0 <= i < ps.len() ==> key_lt(#[trigger] ps[i].0, k),
    ensures
        keys_sorted(ps.push((k, v))),
        pairs_map(ps.push((k, v))) == pairs_map(ps).insert(k, v),
{
    let q = ps.push((k, v));
    assert forall|i: int, j: int| 0 <= i < j < q.len() implies key_lt(
        #[trigger] q[i].0,
        #[trigger] q[j].0,
    ) by {
        if j == ps.len() {
            assert(key_lt(ps[i].0, k));
        } else {
            assert(key_lt(ps[i].0, ps[j].0));
        }
    }
    lemma_pairs_map_drop_last(q);
    assert(q.drop_last() =~= ps);
    lemma_pairs_map_at(q, ps.len() as int);
    assert(pairs_map(q) =~= pairs_map(ps).insert(k, v));
}

/// Overwriting the value at `i` of a sorted list updates the map at that key.
proof fn lemma_pairs_map_set(ps: Seq<(Seq<char>, Seq<char>)>, i: int, v: Seq<char>)
    requires
        keys_sorted(ps),
        0 <= i < ps.len(),
    ensures
        keys_sorted(ps.update(i, (ps[i].0, v))),
        pairs_map(ps.update(i, (ps[i].0, v))) == pairs_map(ps).insert(ps[i].0, v),
{
    let k = ps[i].0;
    let q = ps.update(i, (k, v));
    assert forall|a: int, b: int| 0 <= a < b < q.len() implies key_lt(
        #[trigger] q[a].0,
        #[trigger] q[b].0,
    ) by {
        assert(key_lt(ps[a].0, ps[b].0));
    }
    assert forall|x: Seq<char>| #[trigger] pairs_map(q).contains_key(x) == pairs_map(ps).insert(
        k,
        v,
    ).contains_key(x) by {
        if has_key(q, x) {
            let j = choose|j: int| 0 <= j < q.len() && #[trigger] q[j].0 == x;
            assert(ps[j].0 == x);
        }
        if has_key(ps, x) {
            let j = choose|j: int| 0 <= j < ps.len() && #[trigger] ps[j].0 == x;
            assert(q[j].0 == x);
        }
        if x == k {
            assert(q[i].0 == x);
        }
    }
    assert forall|x: Seq<char>| #[trigger] pairs_map(q).contains_key(x) implies pairs_map(q)[x]
        == pairs_map(ps).insert(k, v)[x] by {
        let j = choose|j: int| 0 <= j < q.len() && #[trigger] q[j].0 == x;
        lemma_pairs_map_at(q, j);
        if j != i {
            lemma_pairs_map_at(ps, j);
            assert(key_lt(ps[i].0, ps[j].0) || key_lt(ps[j].0, ps[i].0));
            lemma_key_lt_irreflexive(x);
        }
    }
    assert(pairs_map(q) =~= pairs_map(ps).insert(k, v));
}

/// Inserting a new pair at `i`, where it keeps the keys sorted, adds it to the map.
proof fn lemma_pairs_map_insert_at(
    ps: Seq<(Seq<char>, Seq<char>)>,
    i: int,
    k: Seq<char>,
    v: Seq<char>,
)
    requires
        keys_sorted(ps),
        0 <= i <= ps.len(),
        forall|j: int| 0 <= j < i ==> key_lt(#[trigger] ps[j].0, k),
        forall|j: int| i <= j < ps.len() ==> key_lt(k, #[trigger] ps[j].0),
    ensures
        keys_sorted(ps.insert(i, (k, v))),
        pairs_map(ps.insert(i, (k, v))) == pairs_map(ps).insert(k, v),
{
    let q = ps.insert(i, (k, v));
    assert forall|a: int, b: int| 0 <= a < b < q.len() implies key_lt(
        #[trigger] q[a].0,
        #[trigger] q[b].0,
    ) by {
        if b < i {
            assert(key_lt(ps[a].0, ps[b].0));
        } else if b == i {
            assert(key_lt(ps[a].0, k));
        } else if a < i {
            assert(key_lt(ps[a].0, k));
            assert(key_lt(k, ps[b - 1].0));
            lemma_key_lt_transitive(ps[a].0, k, ps[b - 1].0);
        } else if a == i {
            assert(key_lt(k, ps[b - 1].0));
        } else {
            assert(key_lt(ps[a - 1].0, ps[b - 1].0));
        }
    }
    assert forall|x: Seq<char>| #[trigger] pairs_map(q).contains_key(x) == pairs_map(ps).insert(
        k,
        v,
    ).contains_key(x) by {
        if has_key(q, x) {
            let j = choose|j: int| 0 <= j < q.len() && #[trigger] q[j].0 == x;
            if j < i {
                assert(ps[j].0 == x);
            } else if j > i {
                assert(ps[j - 1].0 == x);
            }
        }
        if has_key(ps, x) {
            let j = choose|j: int| 0 <= j < ps.len() && #[trigger] ps[j].0 == x;
            if j < i {
                assert(q[j].0 == x);
            } else {
                assert(q[j + 1].0 == x);
            }
        }
        if x == k {
            assert(q[i].0 == x);
        }
    }
    assert forall|x: Seq<char>| #[trigger] pairs_map(q).contains_key(x) implies pairs_map(q)[x]
        == pairs_map(ps).insert(k, v)[x] by {
        let j = choose|j: int| 0 <= j < q.len() && #[trigger] q[j].0 == x;
        lemma_pairs_map_at(q, j);
        if j < i {
            lemma_pairs_map_at(ps, j);
            lemma_key_lt_irreflexive(x);
        } else if j > i {
            lemma_pairs_map_at(ps, j - 1);
            lemma_key_lt_irreflexive(x);
        }
    }
    assert(pairs_map(q) =~= pairs_map(ps).insert(k, v));
}

/// Removing the pair at `i` of a sorted list removes its key from the map.
proof fn lemma_pairs_map_remove_at(ps: Seq<(Seq<char>, Seq<char>)>, i: int)
    requires
        keys_sorted(ps),
        0 <= i < ps.len(),
    ensures
        keys_sorted(ps.remove(i)),
        pairs_map(ps.remove(i)) == pairs_map(ps).remove(ps[i].0),
{
    let k = ps[i].0;
    let q = ps.remove(i);
    assert forall|a: int, b: int| 0 <= a < b < q.len() implies key_lt(
        #[trigger] q[a].0,
        #[trigger] q[b].0,
    ) by {
        if b < i {
            assert(key_lt(ps[a].0, ps[b].0));
        } else if a < i {
            assert(key_lt(ps[a].0, ps[b + 1].0));
        } else {
            assert(key_lt(ps[a + 1].0, ps[b + 1].0));
        }
    }
    assert forall|x: Seq<char>| #[trigger] pairs_map(q).contains_key(x) == pairs_map(ps).remove(
        k,
    ).contains_key(x) by {
        if has_key(q, x) {
            let j = choose|j: int| 0 <= j < q.len() && #[trigger] q[j].0 == x;
            if j < i {
                assert(ps[j].0 == x);
                assert(key_lt(ps[j].0, ps[i].0));
            } else {
                assert(ps[j + 1].0 == x);
                assert(key_lt(ps[i].0, ps[j + 1].0));
            }
            lemma_key_lt_irreflexive(x);
        }
        if has_key(ps, x) && x != k {
            let j = choose|j: int| 0 <= j < ps.len() && #[trigger] ps[j].0 == x;
            if j < i {
                assert(q[j].0 == x);
            } else {
                assert(j != i);
                assert(q[j - 1].0 == x);
            }
        }
    }
    assert forall|x: Seq<char>| #[trigger] pairs_map(q).contains_key(x) implies pairs_map(q)[x]
        == pairs_map(ps)[x] by {
        let j = choose|j: int| 0 <= j < q.len() && #[trigger] q[j].0 == x;
        lemma_pairs_map_at(q, j);
        if j < i {
            lemma_pairs_map_at(ps, j);
        } else {
            lemma_pairs_map_at(ps, j + 1);
        }
    }
    assert(pairs_map(q) =~= pairs_map(ps).remove(k));
}

// ---------------------------------------------------------------------------------------------
// Operations on a manifest
// ---------------------------------------------------------------------------------------------

impl ProjectManifest {
    /// A manifest with no package name or version and no dependencies.
    pub fn empty() -> (r: Self)
        ensures
            r.wf(),
            r@.package_name is None,
            r@.package_version is None,
            r@.dependencies == Seq::<(Seq<char>, Seq<char>)>::empty(),
    {
        let r = ProjectManifest { package_name: None, package_version: None, dependencies: Vec::new() };
        assert(pairs_view(r.dependencies@) =~= Seq::empty());
        r
    }

    /// The dependencies, as `(name, version)` pairs in key order.
    pub fn dependencies(&self) -> (r: &Vec<(String, String)>)
        ensures
            pairs_view(r@) == self@.dependencies,
    {
        &self.dependencies
    }

    /// Sets the version of the dependency `name`, adding it where it is new.
    pub fn set_dependency(&mut self, name: String, version: String)
        requires
            old(self).wf(),
        ensures
            final(self).wf(),
            final(self).dependency_map() == old(self).dependency_map().insert(name@, version@),
            final(self)@.package_name == old(self)@.package_name,
            final(self)@.package_version == old(self)@.package_version,
    {
        let ghost ps = self@.dependencies;
        let mut i: usize = 0;
        while i < self.dependencies.len() && key_less(&self.dependencies[i].0, &name)
            invariant
                i <= self.dependencies.len(),
                ps == pairs_view(self.dependencies@),
                forall|j: int| 0 <= j < i ==> key_lt(#[trigger] ps[j].0, name@),
            decreases self.dependencies.len() - i,
        {
            i = i + 1;
        }
        if i < self.dependencies.len() && self.dependencies[i].0 == name {
            proof {
                lemma_pairs_map_set(ps, i as int, version@);
            }
            self.dependencies.set(i, (name, version));
            assert(pairs_view(self.dependencies@) =~= ps.update(i as int, (ps[i as int].0, version@)));
        } else {
            proof {
                assert forall|j: int| i <= j < ps.len() implies key_lt(name@, #[trigger] ps[j].0) by {
                    if i < ps.len() {
                        lemma_key_lt_total(ps[i as int].0, name@);
                        if j > i {
                            assert(key_lt(ps[i as int].0, ps[j].0));
                            lemma_key_lt_transitive(name@, ps[i as int].0, ps[j].0);
                        }
                    }
                }
                lemma_pairs_map_insert_at(ps, i as int, name@, version@);
            }
            let ghost nv = (name@, version@);
            self.dependencies.insert(i, (name, version));
            assert(pairs_view(self.dependencies@) =~= ps.insert(i as int, nv));
        }
    }

    /// Removes the dependency `name`; whether it was there.
    pub fn remove_dependency(&mut self, name: &str) -> (r: bool)
        requires
            old(self).wf(),
        ensures
            final(self).wf(),
            r == old(self).dependency_map().contains_key(name@),
            final(self).dependency_map() == old(self).dependency_map().remove(name@),
            final(self)@.package_name == old(self)@.package_name,
            final(self)@.package_version == old(self)@.package_version,
    {
        let ghost ps = self@.dependencies;
        let key = name.to_owned();
        let mut i: usize = 0;
        while i < self.dependencies.len()
            invariant
                i <= self.dependencies.len(),
                ps == pairs_view(self.dependencies@),
                *self == *old(self),
                keys_sorted(ps),
                key@ == name@,
                forall|j: int| 0 <= j < i ==> #[trigger] ps[j].0 != name@,
            decreases self.dependencies.len() - i,
        {
            if self.dependencies[i].0 == key {
                proof {
                    lemma_pairs_map_remove_at(ps, i as int);
                    lemma_pairs_map_at(ps, i as int);
                }
                let _removed = self.dependencies.remove(i);
                assert(pairs_view(self.dependencies@) =~= ps.remove(i as int));
                return true;
            }
            i = i + 1;
        }
        assert(!has_key(ps, name@));
        assert(pairs_map(ps).remove(name@) =~= pairs_map(ps));
        false
    }
}

/// Adding a dependency that a manifest does not list and then removing it leaves the
/// manifest's dependencies as they were; removing it again then reports it absent.
pub proof fn lemma_set_then_remove(m: ProjectManifest, name: Seq<char>, version: Seq<char>)
    requires
        m.wf(),
        !m.dependency_map().contains_key(name),
    ensures
        m.dependency_map().insert(name, version).contains_key(name),
        m.dependency_map().insert(name, version).remove(name) == m.dependency_map(),
        !m.dependency_map().insert(name, version).remove(name).contains_key(name),
{
    assert(m.dependency_map().insert(name, version).remove(name) =~= m.dependency_map());
}

impl Default for ProjectManifest {
    fn default() -> (r: Self)
        ensures
            r.wf(),
            r@.package_name is None,
            r@.package_version is None,
            r@.dependencies == Seq::<(Seq<char>, Seq<char>)>::empty(),
    {
        ProjectManifest::empty()
    }
}


// ---------------------------------------------------------------------------------------------
// The text that `to_toml` writes
// ---------------------------------------------------------------------------------------------

/// The escaped form of an optional value.
pub open spec fn opt_escaped(v: Option<Seq<char>>) -> Option<Seq<char>> {
    match v {
        Some(x) => Some(escaped(x)),
        None => None,
    }
}

/// The `[package]` table and a blank line, where a package name or version is set.
pub open spec fn manifest_package_lines(m: ManifestView) -> Seq<Seq<char>> {
    if m.package_name is Some || m.package_version is Some {
        seq![header_line("package"@)] + opt_kv_lines("name"@, opt_escaped(m.package_name))
            + opt_kv_lines("version"@, opt_escaped(m.package_version)) + seq![
            Seq::<char>::empty(),
        ]
    } else {
        Seq::empty()
    }
}

/// One `name = "version"` line per dependency, in order, with escaped versions.
pub open spec fn dependency_lines(ps: Seq<(Seq<char>, Seq<char>)>) -> Seq<Seq<char>> {
    ps.map_values(|p: (Seq<char>, Seq<char>)| kv_line(p.0, escaped(p.1)))
}

/// The lines of the `suture.toml` form of a manifest.
pub open spec fn manifest_lines(m: ManifestView) -> Seq<Seq<char>> {
    manifest_package_lines(m) + seq![header_line("dependencies"@)] + dependency_lines(
        m.dependencies,
    )
}

/// The `suture.toml` text of a manifest.
pub open spec fn spec_manifest_toml(m: ManifestView) -> Seq<char> {
    unlines(manifest_lines(m))
}

// ---------------------------------------------------------------------------------------------
// How `parse` reads a text
// ---------------------------------------------------------------------------------------------

/// What the reader knows after some lines of a `suture.toml` text.
pub struct ManifestState {
    pub section: Option<Seq<char>>,
    pub package_name: Option<Seq<char>>,
    pub package_version: Option<Seq<char>>,
    pub dependencies: Map<Seq<char>, Seq<char>>,
}

/// The reader before the first line.
pub open spec fn manifest_initial() -> ManifestState {
    ManifestState {
        section: None,
        package_name: None,
        package_version: None,
        dependencies: Map::empty(),
    }
}

/// The effect of a line `k = v` in the current section.
pub open spec fn manifest_assign(st: ManifestState, k: Seq<char>, v: Seq<char>) -> ManifestState {
    match st.section {
        Some(sec) => if sec == "package"@ {
            if k == "name"@ {
                ManifestState { package_name: Some(v), ..st }
            } else if k == "version"@ {
                ManifestState { package_version: Some(v), ..st }
            } else {
                st
            }
        } else if sec == "dependencies"@ {
            ManifestState { dependencies: st.dependencies.insert(k, v), ..st }
        } else {
            st
        },
        None => st,
    }
}

/// The effect of one line: blank lines and `#` comments change nothing, a `[name]` header
/// switches section, a `key = value` line sets a field of the current section, and any other
/// line makes the whole text invalid.
pub open spec fn manifest_step(st: ManifestState, line: Seq<char>) -> Option<ManifestState> {
    let t = trim(line);
    if is_skipped(t) {
        Some(st)
    } else if is_header(t) {
        Some(ManifestState { section: Some(section_name(t)), ..st })
    } else {
        match spec_parse_key_value(t) {
            Some(kv) => Some(manifest_assign(st, kv.0, kv.1)),
            None => None,
        }
    }
}

/// The reader after the given lines, one after the other; `None` once a line was invalid.
pub open spec fn manifest_fold(st: ManifestState, lines: Seq<Seq<char>>) -> Option<ManifestState>
    decreases lines.len(),
{
    if lines.len() == 0 {
        Some(st)
    } else {
        match manifest_fold(st, lines.drop_last()) {
            Some(s) => manifest_step(s, lines.last()),
            None => None,
        }
    }
}

/// What a `suture.toml` text says, if it is valid.
pub open spec fn spec_parse_manifest(source: Seq<char>) -> Option<ManifestModel> {
    match manifest_fold(manifest_initial(), split_lines(source)) {
        Some(st) => Some(
            ManifestModel {
                package_name: st.package_name,
                package_version: st.package_version,
                dependencies: st.dependencies,
            },
        ),
        None => None,
    }
}

/// The message of the error for an invalid manifest at `path`.
pub open spec fn invalid_manifest_message(path: Seq<char>) -> Seq<char> {
    "invalid manifest `"@ + path + "`"@
}

/// `value` with every `\` and `"` escaped by a backslash, as the manifest writes values.
pub fn escape_toml(value: &str) -> (r: String)
    ensures
        r@ == escaped(value@),
{
    let vc = chars_of(value);
    let ev = escape_quotes(&vc);
    string_of(&ev)
}

/// Appends the line `key = "value"` with an escaped value.
fn push_escaped_kv(out: &mut String, key: &Vec<char>, value: &String)
    ensures
        final(out)@ == old(out)@ + unlines(seq![kv_line(key@, escaped(value@))]),
{
    let e = escape_toml(value.as_str());
    let ev = chars_of(e.as_str());
    push_kv(out, key, &ev);
}

/// Appends `key = "value"` with an escaped value, where a value is present.
fn push_opt_escaped_kv(out: &mut String, key: &str, value: &Option<String>)
    ensures
        final(out)@ == old(out)@ + unlines(opt_kv_lines(key@, opt_escaped(opt_view(*value)))),
{
    match value {
        Some(v) => {
            let kc = chars_of(key);
            push_escaped_kv(out, &kc, v);
        },
        None => {
            assert(unlines(Seq::<Seq<char>>::empty()) =~= Seq::<char>::empty());
            assert(out@ =~= old(out)@ + unlines(Seq::<Seq<char>>::empty()));
        },
    }
}

impl ProjectManifest {
    /// Appends the `[package]` table and a blank line, where a name or version is set.
    fn push_package_table(&self, out: &mut String)
        ensures
            final(out)@ == old(out)@ + unlines(manifest_package_lines(self@)),
    {
        if self.package_name.is_some() || self.package_version.is_some() {
            push_header(out, "package");
            push_opt_escaped_kv(out, "name", &self.package_name);
            push_opt_escaped_kv(out, "version", &self.package_version);
            push_blank(out);
            proof {
                let a = seq![header_line("package"@)];
                let b = opt_kv_lines("name"@, opt_escaped(self@.package_name));
                let c = opt_kv_lines("version"@, opt_escaped(self@.package_version));
                let d = seq![Seq::<char>::empty()];
                lemma_unlines_append(a, b);
                lemma_unlines_append(a + b, c);
                lemma_unlines_append(a + b + c, d);
                assert(out@ =~= old(out)@ + unlines(a + b + c + d));
            }
        } else {
            assert(unlines(Seq::<Seq<char>>::empty()) =~= Seq::<char>::empty());
            assert(out@ =~= old(out)@ + unlines(manifest_package_lines(self@)));
        }
    }

    /// The `suture.toml` text of this manifest; dependencies come in key order.
    pub fn to_toml(&self) -> (out: String)
        ensures
            out@ == spec_manifest_toml(self@),
    {
        let mut out = String::new();
        self.push_package_table(&mut out);
        push_header(&mut out, "dependencies");
        let ghost head = manifest_package_lines(self@) + seq![header_line("dependencies"@)];
        proof {
            assert(unlines(Seq::<Seq<char>>::empty()) =~= Seq::<char>::empty());
            lemma_unlines_append(manifest_package_lines(self@), seq![header_line("dependencies"@)]);
        }
        let ghost ps = self@.dependencies;
        let mut i: usize = 0;
        while i < self.dependencies.len()
            invariant
                i <= self.dependencies.len(),
                ps == pairs_view(self.dependencies@),
                out@ == unlines(head + dependency_lines(ps.take(i as int))),
            decreases self.dependencies.len() - i,
        {
            let kc = chars_of(self.dependencies[i].0.as_str());
            push_escaped_kv(&mut out, &kc, &self.dependencies[i].1);
            proof {
                let before = head + dependency_lines(ps.take(i as int));
                lemma_unlines_append(before, seq![kv_line(kc@, escaped(self.dependencies@[i as int].1@))]);
                assert(ps[i as int] == (kc@, self.dependencies@[i as int].1@));
                assert(before + seq![kv_line(kc@, escaped(self.dependencies@[i as int].1@))]
                    =~= head + dependency_lines(ps.take(i + 1)));
            }
            i = i + 1;
        }
        assert(ps.take(self.dependencies.len() as int) =~= ps);
        assert(head + dependency_lines(ps) =~= manifest_lines(self@));
        out
    }
}

/// Reading `a` and then `b` is reading `a + b`.
pub proof fn lemma_manifest_fold_append(st: ManifestState, a: Seq<Seq<char>>, b: Seq<Seq<char>>)
    ensures
        manifest_fold(st, a + b) == match manifest_fold(st, a) {
            Some(s) => manifest_fold(s, b),
            None => None,
        },
    decreases b.len(),
{
    if b.len() == 0 {
        assert(a + b =~= a);
    } else {
        lemma_manifest_fold_append(st, a, b.drop_last());
        assert((a + b).drop_last() =~= a + b.drop_last());
        assert((a + b).last() == b.last());
    }
}

proof fn lemma_manifest_section_names()
    ensures
        "package"@.len() == 7,
        "dependencies"@.len() == 12,
{
    reveal_strlit("package");
    reveal_strlit("dependencies");
}

spec fn opt_chars(o: Option<Vec<char>>) -> Option<Seq<char>> {
    match o {
        Some(v) => Some(v@),
        None => None,
    }
}

impl ProjectManifest {
    /// The manifest that a `suture.toml` text describes; `None` where a line is neither blank,
    /// a comment, a `[section]` header nor a `key = value` line.
    pub fn parse(source: &str) -> (r: Option<ProjectManifest>)
        ensures
            match r {
                Some(m) => m.wf() && spec_parse_manifest(source@) == Some(model(m@)),
                None => spec_parse_manifest(source@) is None,
            },
    {
        proof {
            lemma_manifest_section_names();
        }
        let chars = chars_of(source);
        let lines = lines_of(&chars);
        let mut manifest = ProjectManifest::empty();
        let mut section: Option<Vec<char>> = None;
        let ghost ls = views(lines@);
        proof {
            assert(ls.take(0) =~= Seq::<Seq<char>>::empty());
            assert(pairs_map(manifest@.dependencies) =~= Map::empty());
        }
        let mut i: usize = 0;
        while i < lines.len()
            invariant
                i <= lines.len(),
                ls == views(lines@),
                ls == split_lines(source@),
                manifest.wf(),
                "package"@.len() == 7,
                "dependencies"@.len() == 12,
                manifest_fold(manifest_initial(), ls.take(i as int)) == Some(
                    ManifestState {
                        section: opt_chars(section),
                        package_name: manifest@.package_name,
                        package_version: manifest@.package_version,
                        dependencies: manifest.dependency_map(),
                    },
                ),
            decreases lines.len() - i,
        {
            let ghost before = ManifestState {
                section: opt_chars(section),
                package_name: manifest@.package_name,
                package_version: manifest@.package_version,
                dependencies: manifest.dependency_map(),
            };
            proof {
                assert(ls.take(i + 1).drop_last() =~= ls.take(i as int));
                assert(ls.take(i + 1).last() == lines@[i as int]@);
            }
            let t = trim_chars(&lines[i]);
            if skipped(&t) {
            } else if header(&t) {
                section = Some(header_name(&t));
            } else {
                match parse_key_value(&t) {
                    None => {
                        proof {
                            lemma_manifest_fold_append(
                                manifest_initial(),
                                ls.take(i + 1),
                                ls.skip(i + 1),
                            );
                            assert(ls.take(i + 1) + ls.skip(i + 1) =~= ls);
                        }
                        return None;
                    },
                    Some(kv) => {
                        let (k, v) = kv;
                        let in_package = match &section {
                            Some(sec) => chars_eq_str(sec, "package"),
                            None => false,
                        };
                        let in_dependencies = match &section {
                            Some(sec) => chars_eq_str(sec, "dependencies"),
                            None => false,
                        };
                        if in_package {
                            if chars_eq_str(&k, "name") {
                                manifest.package_name = Some(string_of(&v));
                            } else if chars_eq_str(&k, "version") {
                                manifest.package_version = Some(string_of(&v));
                            }
                        } else if in_dependencies {
                            manifest.set_dependency(string_of(&k), string_of(&v));
                        }
                        assert(manifest_assign(before, k@, v@) == ManifestState {
                            section: opt_chars(section),
                            package_name: manifest@.package_name,
                            package_version: manifest@.package_version,
                            dependencies: manifest.dependency_map(),
                        });
                    },
                }
            }
            i = i + 1;
        }
        assert(ls.take(lines.len() as int) =~= ls);
        Some(manifest)
    }

    /// The path of the manifest of the project in `dir`.
    pub fn path_for_dir(dir: &str) -> (r: String)
        ensures
            r@ == join_path(dir@, "suture.toml"@),
    {
        join(dir, "suture.toml")
    }

    /// The manifest in a file: its parsed text where the file exists (`contents` is
    /// `Some`), and an empty manifest where it does not. A text that does not parse gives
    /// the error `invalid manifest `path``.
    pub fn read_or_default(path: &str, contents: Option<&str>) -> (r: Result<ProjectManifest, String>)
        ensures
            match contents {
                None => r matches Ok(m) && m.wf() && m@.package_name is None
                    && m@.package_version is None && m@.dependencies.len() == 0,
                Some(src) => match r {
                    Ok(m) => m.wf() && spec_parse_manifest(src@) == Some(model(m@)),
                    Err(msg) => spec_parse_manifest(src@) is None && msg@
                        == invalid_manifest_message(path@),
                },
            },
    {
        match contents {
            None => Ok(ProjectManifest::empty()),
            Some(src) => match ProjectManifest::parse(src) {
                Some(m) => Ok(m),
                None => {
                    let mut msg = "invalid manifest `".to_owned();
                    push_str(&mut msg, path);
                    push_str(&mut msg, "`");
                    Err(msg)
                },
            },
        }
    }
}

} // verus!
