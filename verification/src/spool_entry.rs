//! Spool entries of the registry index and their `spool.toml` form.
use vstd::prelude::*;

use crate::kv::{
    array_header, array_header_line, header, header_line, header_name, is_array_header, is_header,
    is_skipped, kv_line, parse_key_value, push_array_header, push_blank, push_header, push_kv,
    section_name, skipped, spec_parse_key_value,
};
use crate::text::{
    chars_eq_str, chars_of, lemma_unlines_append, lines_of, opt_view, split_lines, string_of,
    trim, trim_chars, unlines, views,
};

verus! {

/// A prebuilt artifact listed by a spool entry.
#[derive(Debug, Clone, PartialEq, Eq)]
pub struct SpoolArtifact {
    pub target: String,
    pub url: String,
    pub checksum: Option<String>,
}

/// One published version of a spool, as the registry index describes it.
#[derive(Debug, Clone, PartialEq, Eq)]
pub struct SpoolEntry {
    pub name: String,
    pub version: String,
    pub summary: Option<String>,
    pub source_git: String,
    pub source_tag: Option<String>,
    pub source_rev: Option<String>,
    pub build_entry: Option<String>,
    pub dependencies: Vec<(String, String)>,
    pub dev_dependencies: Vec<(String, String)>,
    pub artifacts: Vec<SpoolArtifact>,
}

/// The mathematical value of a [`SpoolArtifact`].
pub struct ArtifactView {
    pub target: Seq<char>,
    pub url: Seq<char>,
    pub checksum: Option<Seq<char>>,
}

/// The mathematical value of a [`SpoolEntry`].
pub struct EntryView {
    pub name: Seq<char>,
    pub version: Seq<char>,
    pub summary: Option<Seq<char>>,
    pub source_git: Seq<char>,
    pub source_tag: Option<Seq<char>>,
    pub source_rev: Option<Seq<char>>,
    pub build_entry: Option<Seq<char>>,
    pub dependencies: Seq<(Seq<char>, Seq<char>)>,
    pub dev_dependencies: Seq<(Seq<char>, Seq<char>)>,
    pub artifacts: Seq<ArtifactView>,
}

/// The views of a list of string pairs.
pub open spec fn pairs_view(ps: Seq<(String, String)>) -> Seq<(Seq<char>, Seq<char>)> {
    ps.map_values(|p: (String, String)| (p.0@, p.1@))
}

/// The views of a list of artifacts.
pub open spec fn artifacts_view(a: Seq<SpoolArtifact>) -> Seq<ArtifactView> {
    a.map_values(|x: SpoolArtifact| x@)
}

impl View for SpoolArtifact {
    type V = ArtifactView;

    open spec fn view(&self) -> ArtifactView {
        ArtifactView { target: self.target@, url: self.url@, checksum: opt_view(self.checksum) }
    }
}

impl View for SpoolEntry {
    type V = EntryView;

    open spec fn view(&self) -> EntryView {
        EntryView {
            name: self.name@,
            version: self.version@,
            summary: opt_view(self.summary),
            source_git: self.source_git@,
            source_tag: opt_view(self.source_tag),
            source_rev: opt_view(self.source_rev),
            build_entry: opt_view(self.build_entry),
            dependencies: pairs_view(self.dependencies@),
            dev_dependencies: pairs_view(self.dev_dependencies@),
            artifacts: artifacts_view(self.artifacts@),
        }
    }
}

// ---------------------------------------------------------------------------------------------
// The text that `to_toml` writes
// ---------------------------------------------------------------------------------------------

/// The line `key = "value"` where a value is present, and nothing otherwise.
pub open spec fn opt_kv_lines(k: Seq<char>, v: Option<Seq<char>>) -> Seq<Seq<char>> {
    match v {
        Some(x) => seq![kv_line(k, x)],
        None => Seq::empty(),
    }
}

/// One `key = "value"` line per pair, in order.
pub open spec fn pair_lines(ps: Seq<(Seq<char>, Seq<char>)>) -> Seq<Seq<char>> {
    ps.map_values(|p: (Seq<char>, Seq<char>)| kv_line(p.0, p.1))
}

/// A blank line, the header `[name]` and one line per pair; nothing where there are no pairs.
pub open spec fn table_lines(name: Seq<char>, ps: Seq<(Seq<char>, Seq<char>)>) -> Seq<Seq<char>> {
    if ps.len() == 0 {
        Seq::empty()
    } else {
        seq![Seq::<char>::empty(), header_line(name)] + pair_lines(ps)
    }
}

/// The lines of the `[package]` table.
pub open spec fn package_lines(e: EntryView) -> Seq<Seq<char>> {
    seq![header_line("package"@), kv_line("name"@, e.name), kv_line("version"@, e.version)]
        + opt_kv_lines("summary"@, e.summary)
}

/// A blank line and the lines of the `[source]` table.
pub open spec fn source_lines(e: EntryView) -> Seq<Seq<char>> {
    seq![Seq::<char>::empty(), header_line("source"@), kv_line("git"@, e.source_git)]
        + opt_kv_lines("tag"@, e.source_tag) + opt_kv_lines("rev"@, e.source_rev)
}

/// A blank line and the `[build]` table, where a build entry is set.
pub open spec fn build_lines(b: Option<Seq<char>>) -> Seq<Seq<char>> {
    match b {
        Some(x) => seq![Seq::<char>::empty(), header_line("build"@), kv_line("entry"@, x)],
        None => Seq::empty(),
    }
}

/// A blank line and the `[[artifacts]]` table of one artifact.
pub open spec fn artifact_lines(a: ArtifactView) -> Seq<Seq<char>> {
    seq![
        Seq::<char>::empty(),
        array_header_line("artifacts"@),
        kv_line("target"@, a.target),
        kv_line("url"@, a.url),
    ] + opt_kv_lines("checksum"@, a.checksum)
}

/// The `[[artifacts]]` tables of all artifacts, in order.
pub open spec fn artifacts_lines(a: Seq<ArtifactView>) -> Seq<Seq<char>>
    decreases a.len(),
{
    if a.len() == 0 {
        Seq::empty()
    } else {
        artifacts_lines(a.drop_last()) + artifact_lines(a.last())
    }
}

/// The lines of the `spool.toml` form of an entry.
pub open spec fn entry_lines(e: EntryView) -> Seq<Seq<char>> {
    package_lines(e) + source_lines(e) + build_lines(e.build_entry) + table_lines(
        "dependencies"@,
        e.dependencies,
    ) + table_lines("dev-dependencies"@, e.dev_dependencies) + artifacts_lines(e.artifacts)
}

/// The `spool.toml` text of an entry: its lines, each ended by a line break.
pub open spec fn spec_entry_toml(e: EntryView) -> Seq<char> {
    unlines(entry_lines(e))
}

// ---------------------------------------------------------------------------------------------
// How `parse` reads a text
// ---------------------------------------------------------------------------------------------

/// What the reader knows after some lines of a `spool.toml` text.
pub struct EntryState {
    pub section: Option<Seq<char>>,
    pub name: Option<Seq<char>>,
    pub version: Option<Seq<char>>,
    pub summary: Option<Seq<char>>,
    pub source_git: Option<Seq<char>>,
    pub source_tag: Option<Seq<char>>,
    pub source_rev: Option<Seq<char>>,
    pub build_entry: Option<Seq<char>>,
    pub dependencies: Seq<(Seq<char>, Seq<char>)>,
    pub dev_dependencies: Seq<(Seq<char>, Seq<char>)>,
    pub artifacts: Seq<ArtifactView>,
    pub current: Option<ArtifactView>,
}

/// The reader before the first line.
pub open spec fn initial_state() -> EntryState {
    EntryState {
        section: None,
        name: None,
        version: None,
        summary: None,
        source_git: None,
        source_tag: None,
        source_rev: None,
        build_entry: None,
        dependencies: Seq::empty(),
        dev_dependencies: Seq::empty(),
        artifacts: Seq::empty(),
        current: None,
    }
}

/// An artifact with empty target and url and no checksum.
pub open spec fn empty_artifact() -> ArtifactView {
    ArtifactView { target: Seq::empty(), url: Seq::empty(), checksum: None }
}

/// The artifact being read, if any, moved to the finished artifacts.
pub open spec fn flush(st: EntryState) -> EntryState {
    match st.current {
        Some(a) => EntryState { artifacts: st.artifacts.push(a), current: None, ..st },
        None => st,
    }
}

/// The effect of a line `k = v` in the current section.
pub open spec fn entry_assign(st: EntryState, k: Seq<char>, v: Seq<char>) -> EntryState {
    match st.section {
        Some(sec) => if sec == "package"@ {
            if k == "name"@ {
                EntryState { name: Some(v), ..st }
            } else if k == "version"@ {
                EntryState { version: Some(v), ..st }
            } else if k == "summary"@ {
                EntryState { summary: Some(v), ..st }
            } else {
                st
            }
        } else if sec == "source"@ {
            if k == "git"@ {
                EntryState { source_git: Some(v), ..st }
            } else if k == "tag"@ {
                EntryState { source_tag: Some(v), ..st }
            } else if k == "rev"@ {
                EntryState { source_rev: Some(v), ..st }
            } else {
                st
            }
        } else if sec == "build"@ {
            if k == "entry"@ {
                EntryState { build_entry: Some(v), ..st }
            } else {
                st
            }
        } else if sec == "dependencies"@ {
            EntryState { dependencies: st.dependencies.push((k, v)), ..st }
        } else if sec == "dev-dependencies"@ {
            EntryState { dev_dependencies: st.dev_dependencies.push((k, v)), ..st }
        } else if sec == "artifacts"@ {
            match st.current {
                Some(a) => if k == "target"@ {
                    EntryState { current: Some(ArtifactView { target: v, ..a }), ..st }
                } else if k == "url"@ {
                    EntryState { current: Some(ArtifactView { url: v, ..a }), ..st }
                } else if k == "checksum"@ {
                    EntryState { current: Some(ArtifactView { checksum: Some(v), ..a }), ..st }
                } else {
                    st
                },
                None => st,
            }
        } else {
            st
        },
        None => st,
    }
}

/// The effect of one line of text: blank lines and `#` comments change nothing, a
/// `[[name]]` header finishes the artifact being read and starts a new one where `name`
/// is `artifacts`, a `[name]` header finishes the artifact being read, and a `key = value`
/// line sets a field of the current section.
pub open spec fn entry_step(st: EntryState, line: Seq<char>) -> EntryState {
    let t = trim(line);
    if is_skipped(t) {
        st
    } else if is_array_header(t) {
        let f = flush(st);
        let name = section_name(t);
        EntryState {
            section: Some(name),
            current: if name == "artifacts"@ {
                Some(empty_artifact())
            } else {
                None
            },
            ..f
        }
    } else if is_header(t) {
        let f = flush(st);
        EntryState { section: Some(section_name(t)), ..f }
    } else {
        match spec_parse_key_value(t) {
            Some(kv) => entry_assign(st, kv.0, kv.1),
            None => st,
        }
    }
}

/// The reader after the given lines, one after the other.
pub open spec fn entry_fold(st: EntryState, lines: Seq<Seq<char>>) -> EntryState
    decreases lines.len(),
{
    if lines.len() == 0 {
        st
    } else {
        entry_step(entry_fold(st, lines.drop_last()), lines.last())
    }
}

/// The entry that a reader holds once all lines are read: present where the name, the version
/// and the git source were all given.
pub open spec fn finish(st: EntryState) -> Option<EntryView> {
    let f = flush(st);
    if f.name is Some && f.version is Some && f.source_git is Some {
        Some(
            EntryView {
                name: f.name->0,
                version: f.version->0,
                summary: f.summary,
                source_git: f.source_git->0,
                source_tag: f.source_tag,
                source_rev: f.source_rev,
                build_entry: f.build_entry,
                dependencies: f.dependencies,
                dev_dependencies: f.dev_dependencies,
                artifacts: f.artifacts,
            },
        )
    } else {
        None
    }
}

/// The entry that a `spool.toml` text describes, if any.
pub open spec fn spec_parse_entry(source: Seq<char>) -> Option<EntryView> {
    finish(entry_fold(initial_state(), split_lines(source)))
}

// ---------------------------------------------------------------------------------------------
// The reader
// ---------------------------------------------------------------------------------------------

/// The state of a `spool.toml` reader.
struct EntryReader {
    section: Option<Vec<char>>,
    name: Option<String>,
    version: Option<String>,
    summary: Option<String>,
    source_git: Option<String>,
    source_tag: Option<String>,
    source_rev: Option<String>,
    build_entry: Option<String>,
    dependencies: Vec<(String, String)>,
    dev_dependencies: Vec<(String, String)>,
    artifacts: Vec<SpoolArtifact>,
    current: Option<SpoolArtifact>,
}

spec fn opt_chars_view(o: Option<Vec<char>>) -> Option<Seq<char>> {
    match o {
        Some(v) => Some(v@),
        None => None,
    }
}

spec fn opt_artifact_view(o: Option<SpoolArtifact>) -> Option<ArtifactView> {
    match o {
        Some(a) => Some(a@),
        None => None,
    }
}

impl View for EntryReader {
    type V = EntryState;

    closed spec fn view(&self) -> EntryState {
        EntryState {
            section: opt_chars_view(self.section),
            name: opt_view(self.name),
            version: opt_view(self.version),
            summary: opt_view(self.summary),
            source_git: opt_view(self.source_git),
            source_tag: opt_view(self.source_tag),
            source_rev: opt_view(self.source_rev),
            build_entry: opt_view(self.build_entry),
            dependencies: pairs_view(self.dependencies@),
            dev_dependencies: pairs_view(self.dev_dependencies@),
            artifacts: artifacts_view(self.artifacts@),
            current: opt_artifact_view(self.current),
        }
    }
}

/// The names of the sections that the reader tells apart are pairwise different.
proof fn lemma_section_names()
    ensures
        "package"@.len() == 7,
        "source"@.len() == 6,
        "build"@.len() == 5,
        "dependencies"@.len() == 12,
        "dev-dependencies"@.len() == 16,
        "artifacts"@.len() == 9,
{
    reveal_strlit("package");
    reveal_strlit("source");
    reveal_strlit("build");
    reveal_strlit("dependencies");
    reveal_strlit("dev-dependencies");
    reveal_strlit("artifacts");
}

/// The sections that the reader tells apart.
enum Section {
    Package,
    Source,
    Build,
    Dependencies,
    DevDependencies,
    Artifacts,
    Other,
}

impl EntryReader {
    fn new() -> (r: Self)
        ensures
            r@ == initial_state(),
    {
        let r = EntryReader {
            section: None,
            name: None,
            version: None,
            summary: None,
            source_git: None,
            source_tag: None,
            source_rev: None,
            build_entry: None,
            dependencies: Vec::new(),
            dev_dependencies: Vec::new(),
            artifacts: Vec::new(),
            current: None,
        };
        assert(pairs_view(r.dependencies@) =~= Seq::empty());
        assert(pairs_view(r.dev_dependencies@) =~= Seq::empty());
        assert(artifacts_view(r.artifacts@) =~= Seq::empty());
        r
    }

    fn flush(&mut self)
        ensures
            final(self)@ == flush(old(self)@),
    {
        let cur = self.current.take();
        match cur {
            Some(a) => {
                let ghost av = a@;
                self.artifacts.push(a);
                assert(artifacts_view(self.artifacts@) =~= artifacts_view(
                    old(self).artifacts@,
                ).push(av));
            },
            None => {},
        }
    }

    fn section_kind(&self) -> (s: Section)
        ensures
            match s {
                Section::Package => self@.section == Some("package"@),
                Section::Source => self@.section == Some("source"@),
                Section::Build => self@.section == Some("build"@),
                Section::Dependencies => self@.section == Some("dependencies"@),
                Section::DevDependencies => self@.section == Some("dev-dependencies"@),
                Section::Artifacts => self@.section == Some("artifacts"@),
                Section::Other => {
                    &&& self@.section != Some("package"@)
                    &&& self@.section != Some("source"@)
                    &&& self@.section != Some("build"@)
                    &&& self@.section != Some("dependencies"@)
                    &&& self@.section != Some("dev-dependencies"@)
                    &&& self@.section != Some("artifacts"@)
                },
            },
    {
        match &self.section {
            None => Section::Other,
            Some(sec) => {
                if chars_eq_str(sec, "package") {
                    Section::Package
                } else if chars_eq_str(sec, "source") {
                    Section::Source
                } else if chars_eq_str(sec, "build") {
                    Section::Build
                } else if chars_eq_str(sec, "dependencies") {
                    Section::Dependencies
                } else if chars_eq_str(sec, "dev-dependencies") {
                    Section::DevDependencies
                } else if chars_eq_str(sec, "artifacts") {
                    Section::Artifacts
                } else {
                    Section::Other
                }
            },
        }
    }

    fn assign(&mut self, k: Vec<char>, v: Vec<char>)
        ensures
            final(self)@ == entry_assign(old(self)@, k@, v@),
    {
        proof {
            lemma_section_names();
        }
        let kind = self.section_kind();
        match kind {
            Section::Package => {
                if chars_eq_str(&k, "name") {
                    self.name = Some(string_of(&v));
                } else if chars_eq_str(&k, "version") {
                    self.version = Some(string_of(&v));
                } else if chars_eq_str(&k, "summary") {
                    self.summary = Some(string_of(&v));
                }
            },
            Section::Source => {
                if chars_eq_str(&k, "git") {
                    self.source_git = Some(string_of(&v));
                } else if chars_eq_str(&k, "tag") {
                    self.source_tag = Some(string_of(&v));
                } else if chars_eq_str(&k, "rev") {
                    self.source_rev = Some(string_of(&v));
                }
            },
            Section::Build => {
                if chars_eq_str(&k, "entry") {
                    self.build_entry = Some(string_of(&v));
                }
            },
            Section::Dependencies => {
                let pair = (string_of(&k), string_of(&v));
                self.dependencies.push(pair);
                assert(pairs_view(self.dependencies@) =~= pairs_view(
                    old(self).dependencies@,
                ).push((k@, v@)));
            },
            Section::DevDependencies => {
                let pair = (string_of(&k), string_of(&v));
                self.dev_dependencies.push(pair);
                assert(pairs_view(self.dev_dependencies@) =~= pairs_view(
                    old(self).dev_dependencies@,
                ).push((k@, v@)));
            },
            Section::Artifacts => {
                let cur = self.current.take();
                match cur {
                    Some(a) => {
                        let mut a = a;
                        if chars_eq_str(&k, "target") {
                            a.target = string_of(&v);
                        } else if chars_eq_str(&k, "url") {
                            a.url = string_of(&v);
                        } else if chars_eq_str(&k, "checksum") {
                            a.checksum = Some(string_of(&v));
                        }
                        self.current = Some(a);
                    },
                    None => {},
                }
            },
            Section::Other => {},
        }
    }

    fn feed(&mut self, line: &Vec<char>)
        ensures
            final(self)@ == entry_step(old(self)@, line@),
    {
        let t = trim_chars(line);
        if skipped(&t) {
            return ;
        }
        if array_header(&t) {
            self.flush();
            let name = header_name(&t);
            let is_artifacts = chars_eq_str(&name, "artifacts");
            self.section = Some(name);
            if is_artifacts {
                self.current = Some(
                    SpoolArtifact { target: String::new(), url: String::new(), checksum: None },
                );
            }
            return ;
        }
        if header(&t) {
            self.flush();
            self.section = Some(header_name(&t));
            return ;
        }
        match parse_key_value(&t) {
            Some(kv) => {
                let (k, v) = kv;
                self.assign(k, v);
            },
            None => {},
        }
    }

    fn finish(self) -> (r: Option<SpoolEntry>)
        ensures
            match r {
                Some(e) => finish(self@) == Some(e@),
                None => finish(self@) is None,
            },
    {
        let mut me = self;
        me.flush();
        match (me.name, me.version, me.source_git) {
            (Some(name), Some(version), Some(source_git)) => Some(
                SpoolEntry {
                    name,
                    version,
                    summary: me.summary,
                    source_git,
                    source_tag: me.source_tag,
                    source_rev: me.source_rev,
                    build_entry: me.build_entry,
                    dependencies: me.dependencies,
                    dev_dependencies: me.dev_dependencies,
                    artifacts: me.artifacts,
                },
            ),
            _ => None,
        }
    }
}

// ---------------------------------------------------------------------------------------------
// Public operations
// ---------------------------------------------------------------------------------------------

/// Appends `key = "value"` where a value is present.
fn push_opt_kv(out: &mut String, key: &str, value: &Option<String>)
    ensures
        final(out)@ == old(out)@ + unlines(opt_kv_lines(key@, opt_view(*value))),
{
    match value {
        Some(v) => {
            let kc = chars_of(key);
            let vc = chars_of(v.as_str());
            push_kv(out, &kc, &vc);
        },
        None => {
            assert(unlines(Seq::<Seq<char>>::empty()) =~= Seq::<char>::empty());
            assert(out@ =~= old(out)@ + unlines(Seq::<Seq<char>>::empty()));
        },
    }
}

/// Appends a table of `key = "value"` lines, preceded by a blank line and its header, where
/// there are pairs.
fn push_table(out: &mut String, name: &str, pairs: &Vec<(String, String)>)
    ensures
        final(out)@ == old(out)@ + unlines(table_lines(name@, pairs_view(pairs@))),
{
    if pairs.len() == 0 {
        assert(pairs_view(pairs@) =~= Seq::empty());
        assert(unlines(Seq::<Seq<char>>::empty()) =~= Seq::<char>::empty());
        assert(out@ =~= old(out)@ + unlines(table_lines(name@, pairs_view(pairs@))));
        return ;
    }
    push_blank(out);
    push_header(out, name);
    let ghost head = seq![Seq::<char>::empty(), header_line(name@)];
    proof {
        lemma_unlines_append(seq![Seq::<char>::empty()], seq![header_line(name@)]);
        assert(seq![Seq::<char>::empty()] + seq![header_line(name@)] =~= head);
    }
    let mut i: usize = 0;
    while i < pairs.len()
        invariant
            i <= pairs.len(),
            out@ == old(out)@ + unlines(head + pair_lines(pairs_view(pairs@).take(i as int))),
        decreases pairs.len() - i,
    {
        let kc = chars_of(pairs[i].0.as_str());
        let vc = chars_of(pairs[i].1.as_str());
        push_kv(out, &kc, &vc);
        proof {
            let pv = pairs_view(pairs@);
            let before = head + pair_lines(pv.take(i as int));
            lemma_unlines_append(before, seq![kv_line(kc@, vc@)]);
            assert(pv[i as int] == (kc@, vc@));
            assert(before + seq![kv_line(kc@, vc@)] =~= head + pair_lines(pv.take(i + 1)));
        }
        i = i + 1;
    }
    assert(pairs_view(pairs@).take(pairs.len() as int) =~= pairs_view(pairs@));
}

/// Appends the `[[artifacts]]` table of one artifact.
fn push_artifact(out: &mut String, a: &SpoolArtifact)
    ensures
        final(out)@ == old(out)@ + unlines(artifact_lines(a@)),
{
    push_blank(out);
    push_array_header(out, "artifacts");
    let tk = chars_of("target");
    let tv = chars_of(a.target.as_str());
    push_kv(out, &tk, &tv);
    let uk = chars_of("url");
    let uv = chars_of(a.url.as_str());
    push_kv(out, &uk, &uv);
    push_opt_kv(out, "checksum", &a.checksum);
    proof {
        let b = Seq::<char>::empty();
        let l1 = seq![b];
        let l2 = seq![array_header_line("artifacts"@)];
        let l3 = seq![kv_line("target"@, a.target@)];
        let l4 = seq![kv_line("url"@, a.url@)];
        let l5 = opt_kv_lines("checksum"@, opt_view(a.checksum));
        lemma_unlines_append(l1, l2);
        lemma_unlines_append(l1 + l2, l3);
        lemma_unlines_append(l1 + l2 + l3, l4);
        lemma_unlines_append(l1 + l2 + l3 + l4, l5);
        assert(l1 + l2 + l3 + l4 + l5 =~= artifact_lines(a@));
    }
}

/// Appends the `[package]` table of `e`.
fn push_package(out: &mut String, e: &SpoolEntry)
    ensures
        final(out)@ == old(out)@ + unlines(package_lines(e@)),
{
    push_header(out, "package");
    let k = chars_of("name");
    let v = chars_of(e.name.as_str());
    push_kv(out, &k, &v);
    let k = chars_of("version");
    let v = chars_of(e.version.as_str());
    push_kv(out, &k, &v);
    push_opt_kv(out, "summary", &e.summary);
    proof {
        let a = seq![header_line("package"@)];
        let b = seq![kv_line("name"@, e.name@)];
        let c = seq![kv_line("version"@, e.version@)];
        let d = opt_kv_lines("summary"@, opt_view(e.summary));
        lemma_unlines_append(a, b);
        lemma_unlines_append(a + b, c);
        lemma_unlines_append(a + b + c, d);
        assert(a + b + c + d =~= package_lines(e@));
        assert(out@ =~= old(out)@ + unlines(package_lines(e@)));
    }
}

/// Appends a blank line and the `[source]` table of `e`.
fn push_source(out: &mut String, e: &SpoolEntry)
    ensures
        final(out)@ == old(out)@ + unlines(source_lines(e@)),
{
    push_blank(out);
    push_header(out, "source");
    let k = chars_of("git");
    let v = chars_of(e.source_git.as_str());
    push_kv(out, &k, &v);
    push_opt_kv(out, "tag", &e.source_tag);
    push_opt_kv(out, "rev", &e.source_rev);
    proof {
        let a = seq![Seq::<char>::empty()];
        let b = seq![header_line("source"@)];
        let c = seq![kv_line("git"@, e.source_git@)];
        let d = opt_kv_lines("tag"@, opt_view(e.source_tag));
        let f = opt_kv_lines("rev"@, opt_view(e.source_rev));
        lemma_unlines_append(a, b);
        lemma_unlines_append(a + b, c);
        lemma_unlines_append(a + b + c, d);
        lemma_unlines_append(a + b + c + d, f);
        assert(a + b + c + d + f =~= source_lines(e@));
        assert(out@ =~= old(out)@ + unlines(source_lines(e@)));
    }
}

/// Appends a blank line and the `[build]` table, where a build entry is set.
fn push_build(out: &mut String, build_entry: &Option<String>)
    ensures
        final(out)@ == old(out)@ + unlines(build_lines(opt_view(*build_entry))),
{
    match build_entry {
        Some(entry) => {
            push_blank(out);
            push_header(out, "build");
            let k = chars_of("entry");
            let v = chars_of(entry.as_str());
            push_kv(out, &k, &v);
            proof {
                let a = seq![Seq::<char>::empty()];
                let b = seq![header_line("build"@)];
                let c = seq![kv_line("entry"@, entry@)];
                lemma_unlines_append(a, b);
                lemma_unlines_append(a + b, c);
                assert(a + b + c =~= build_lines(opt_view(*build_entry)));
                assert(out@ =~= old(out)@ + unlines(build_lines(opt_view(*build_entry))));
            }
        },
        None => {
            assert(unlines(Seq::<Seq<char>>::empty()) =~= Seq::<char>::empty());
            assert(out@ =~= old(out)@ + unlines(build_lines(opt_view(*build_entry))));
        },
    }
}

/// Appends the `[[artifacts]]` tables of all artifacts, in order.
fn push_artifacts(out: &mut String, artifacts: &Vec<SpoolArtifact>)
    ensures
        final(out)@ == old(out)@ + unlines(artifacts_lines(artifacts_view(artifacts@))),
{
    let mut i: usize = 0;
    proof {
        assert(artifacts_view(artifacts@).take(0) =~= Seq::<ArtifactView>::empty());
        assert(unlines(Seq::<Seq<char>>::empty()) =~= Seq::<char>::empty());
        assert(out@ =~= old(out)@ + unlines(artifacts_lines(artifacts_view(artifacts@).take(0))));
    }
    while i < artifacts.len()
        invariant
            i <= artifacts.len(),
            out@ == old(out)@ + unlines(artifacts_lines(artifacts_view(artifacts@).take(i as int))),
        decreases artifacts.len() - i,
    {
        push_artifact(out, &artifacts[i]);
        proof {
            let av = artifacts_view(artifacts@);
            assert(av.take(i + 1).drop_last() =~= av.take(i as int));
            assert(av.take(i + 1).last() == artifacts@[i as int]@);
            lemma_unlines_append(
                artifacts_lines(av.take(i as int)),
                artifact_lines(artifacts@[i as int]@),
            );
        }
        i = i + 1;
    }
    assert(artifacts_view(artifacts@).take(artifacts.len() as int) =~= artifacts_view(artifacts@));
}

impl SpoolEntry {
    /// A new entry with the given name, version, git source and optional tag, and nothing
    /// else.
    pub fn from_parts(name: &str, version: &str, git: &str, tag: Option<&str>) -> (r: Self)
        ensures
            r@.name == name@,
            r@.version == version@,
            r@.summary is None,
            r@.source_git == git@,
            r@.source_tag == match tag {
                Some(t) => Some(t@),
                None => None::<Seq<char>>,
            },
            r@.source_rev is None,
            r@.build_entry is None,
            r@.dependencies == Seq::<(Seq<char>, Seq<char>)>::empty(),
            r@.dev_dependencies == Seq::<(Seq<char>, Seq<char>)>::empty(),
            r@.artifacts == Seq::<ArtifactView>::empty(),
    {
        let source_tag = match tag {
            Some(t) => Some(t.to_owned()),
            None => None,
        };
        let r = SpoolEntry {
            name: name.to_owned(),
            version: version.to_owned(),
            summary: None,
            source_git: git.to_owned(),
            source_tag,
            source_rev: None,
            build_entry: None,
            dependencies: Vec::new(),
            dev_dependencies: Vec::new(),
            artifacts: Vec::new(),
        };
        assert(pairs_view(r.dependencies@) =~= Seq::empty());
        assert(pairs_view(r.dev_dependencies@) =~= Seq::empty());
        assert(artifacts_view(r.artifacts@) =~= Seq::empty());
        r
    }

    /// The `spool.toml` text of this entry.
    pub fn to_toml(&self) -> (out: String)
        ensures
            out@ == spec_entry_toml(self@),
    {
        let mut out = String::new();
        push_package(&mut out, self);
        push_source(&mut out, self);
        push_build(&mut out, &self.build_entry);
        push_table(&mut out, "dependencies", &self.dependencies);
        push_table(&mut out, "dev-dependencies", &self.dev_dependencies);
        push_artifacts(&mut out, &self.artifacts);
        proof {
            let e = self@;
            let p = package_lines(e);
            let s = source_lines(e);
            let b = build_lines(e.build_entry);
            let d = table_lines("dependencies"@, e.dependencies);
            let dd = table_lines("dev-dependencies"@, e.dev_dependencies);
            let a = artifacts_lines(e.artifacts);
            assert(unlines(Seq::<Seq<char>>::empty()) =~= Seq::<char>::empty());
            lemma_unlines_append(p, s);
            lemma_unlines_append(p + s, b);
            lemma_unlines_append(p + s + b, d);
            lemma_unlines_append(p + s + b + d, dd);
            lemma_unlines_append(p + s + b + d + dd, a);
            assert(out@ =~= unlines(p + s + b + d + dd + a));
        }
        out
    }

    /// The entry that a `spool.toml` text describes; `None` where the text does not give a
    /// name, a version and a git source.
    pub fn parse(source: &str) -> (r: Option<SpoolEntry>)
        ensures
            match r {
                Some(e) => spec_parse_entry(source@) == Some(e@),
                None => spec_parse_entry(source@) is None,
            },
    {
        let chars = chars_of(source);
        let lines = lines_of(&chars);
        let mut reader = EntryReader::new();
        let mut i: usize = 0;
        while i < lines.len()
            invariant
                i <= lines.len(),
                views(lines@) == split_lines(source@),
                reader@ == entry_fold(initial_state(), views(lines@).take(i as int)),
            decreases lines.len() - i,
        {
            reader.feed(&lines[i]);
            proof {
                let ls = views(lines@);
                assert(ls.take(i + 1).drop_last() =~= ls.take(i as int));
                assert(ls.take(i + 1).last() == lines@[i as int]@);
            }
            i = i + 1;
        }
        assert(views(lines@).take(lines.len() as int) =~= views(lines@));
        reader.finish()
    }
}

} // verus!
