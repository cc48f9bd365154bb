//! The line grammar shared by `spool.toml` and `suture.toml`: comments, `[section]` and
//! `[[section]]` headers, and `key = "value"` lines.
use vstd::prelude::*;

use crate::text::{
    drop_leading, drop_leading_chars, drop_trailing, drop_trailing_chars, first_index_of,
    index_of, is_ws, lacks, lemma_first_index_of, lemma_trim_end_take, lemma_trim_fixed,
    lemma_trim_start_prefix, lemma_trim_start_skip, lemma_unlines_push, push_char, push_chars,
    slice_chars, trim, trim_chars, unlines, chars_of,
};

verus! {

/// A trimmed line that carries nothing: empty, or a `#` comment.
pub open spec fn is_skipped(t: Seq<char>) -> bool {
    t.len() == 0 || t[0] == '#'
}

/// A trimmed line that starts with `[` and ends with `]`.
pub open spec fn is_header(t: Seq<char>) -> bool {
    t.len() > 0 && t[0] == '[' && t.last() == ']'
}

/// A trimmed line that starts with `[[` and ends with `]]`.
pub open spec fn is_array_header(t: Seq<char>) -> bool {
    t.len() >= 2 && t[0] == '[' && t[1] == '[' && t[t.len() - 2] == ']' && t.last() == ']'
}

/// The section that a header line names: the line without its leading `[`s and trailing
/// `]`s, trimmed.
pub open spec fn section_name(t: Seq<char>) -> Seq<char> {
    trim(drop_trailing(drop_leading(t, '['), ']'))
}

/// A value with one pair of surrounding double quotes removed, where it has them.
pub open spec fn spec_trim_quotes(v: Seq<char>) -> Seq<char> {
    let t = trim(v);
    if t.len() >= 2 && t[0] == '"' && t.last() == '"' {
        t.subrange(1, t.len() - 1)
    } else {
        t
    }
}

/// The key and value of a `key = value` line, split at the first `=`; `None` where the line
/// has no `=`.
pub open spec fn spec_parse_key_value(line: Seq<char>) -> Option<(Seq<char>, Seq<char>)> {
    let i = first_index_of(line, '=');
    if i < line.len() {
        Some((trim(line.take(i as int)), spec_trim_quotes(trim(line.skip(i + 1int)))))
    } else {
        None
    }
}

/// The line `key = "value"` as the writers of both formats emit it.
pub open spec fn kv_line(k: Seq<char>, v: Seq<char>) -> Seq<char> {
    k + seq![' ', '=', ' ', '"'] + v + seq!['"']
}

/// The header line `[name]`.
pub open spec fn header_line(name: Seq<char>) -> Seq<char> {
    seq!['['] + name + seq![']']
}

/// The header line `[[name]]`.
pub open spec fn array_header_line(name: Seq<char>) -> Seq<char> {
    seq!['[', '['] + name + seq![']', ']']
}

/// A key that reads back as itself from a `key = "value"` line: no `=` or line break in it,
/// no whitespace at either end, and no `#` in front.
pub open spec fn plain_key(k: Seq<char>) -> bool {
    &&& lacks(k, '=')
    &&& lacks(k, '\n')
    &&& k.len() > 0 ==> !is_ws(k[0]) && !is_ws(k.last()) && k[0] != '#'
}

/// A section name that reads back as itself from its header line.
pub open spec fn plain_section(name: Seq<char>) -> bool {
    &&& name.len() > 0
    &&& !is_ws(name[0]) && name[0] != '['
    &&& !is_ws(name.last()) && name.last() != ']'
}

pub proof fn lemma_drop_leading_prefix(n: nat, c: char, s: Seq<char>)
    requires
        s.len() > 0 ==> s[0] != c,
    ensures
        drop_leading(Seq::new(n, |i: int| c) + s, c) == s,
    decreases n,
{
    let w = Seq::new(n, |i: int| c) + s;
    if n == 0 {
        assert(w =~= s);
    } else {
        lemma_drop_leading_prefix((n - 1) as nat, c, s);
        assert(w.drop_first() =~= Seq::new((n - 1) as nat, |i: int| c) + s);
    }
}

pub proof fn lemma_drop_trailing_suffix(s: Seq<char>, n: nat, c: char)
    requires
        s.len() > 0 ==> s.last() != c,
    ensures
        drop_trailing(s + Seq::new(n, |i: int| c), c) == s,
    decreases n,
{
    let w = s + Seq::new(n, |i: int| c);
    if n == 0 {
        assert(w =~= s);
    } else {
        lemma_drop_trailing_suffix(s, (n - 1) as nat, c);
        assert(w.drop_last() =~= s + Seq::new((n - 1) as nat, |i: int| c));
    }
}

/// `[name]` is a header naming `name`.
pub proof fn lemma_header_line(name: Seq<char>)
    requires
        plain_section(name),
    ensures
        ({
            let t = header_line(name);
            &&& trim(t) == t
            &&& !is_skipped(t)
            &&& is_header(t)
            &&& !is_array_header(t)
            &&& section_name(t) == name
        }),
{
    let t = seq!['['] + name + seq![']'];
    assert(t[0] == '[');
    assert(t.last() == ']');
    assert(t[1] == name[0]);
    lemma_trim_fixed(t);
    assert(seq!['['] =~= Seq::new(1, |i: int| '['));
    assert(seq![']'] =~= Seq::new(1, |i: int| ']'));
    lemma_drop_leading_prefix(1, '[', name + seq![']']);
    assert(t =~= Seq::new(1, |i: int| '[') + (name + seq![']']));
    lemma_drop_trailing_suffix(name, 1, ']');
    lemma_trim_fixed(name);
}

/// `[[name]]` is an array header naming `name`.
pub proof fn lemma_array_header_line(name: Seq<char>)
    requires
        plain_section(name),
    ensures
        ({
            let t = array_header_line(name);
            &&& trim(t) == t
            &&& !is_skipped(t)
            &&& is_array_header(t)
            &&& section_name(t) == name
        }),
{
    let t = seq!['[', '['] + name + seq![']', ']'];
    assert(t[0] == '[');
    assert(t[1] == '[');
    assert(t[t.len() - 2] == ']');
    assert(t.last() == ']');
    lemma_trim_fixed(t);
    assert(seq!['[', '['] =~= Seq::new(2, |i: int| '['));
    assert(seq![']', ']'] =~= Seq::new(2, |i: int| ']'));
    lemma_drop_leading_prefix(2, '[', name + seq![']', ']']);
    assert(t =~= Seq::new(2, |i: int| '[') + (name + seq![']', ']']));
    lemma_drop_trailing_suffix(name, 2, ']');
    lemma_trim_fixed(name);
}

/// The quoted tail `" \"value\""` of a `key = "value"` line reads back as `value`.
proof fn lemma_quoted_tail(v: Seq<char>)
    ensures
        spec_trim_quotes(trim(seq![' ', '"'] + v + seq!['"'])) == v,
{
    let q = seq!['"'] + v + seq!['"'];
    assert(q[0] == '"');
    assert(q.last() == '"');
    lemma_trim_fixed(q);
    assert(seq![' ', '"'] + v + seq!['"'] =~= seq![' '] + q);
    lemma_trim_start_prefix(seq![' '], q);
    assert(trim(seq![' ', '"'] + v + seq!['"']) == q);
    assert(q.subrange(1, q.len() - 1) =~= v);
}

/// A `key = "value"` line with a plain key is a key-value line that reads back as
/// `(key, value)`.
pub proof fn lemma_kv_line(k: Seq<char>, v: Seq<char>)
    requires
        plain_key(k),
    ensures
        ({
            let t = trim(kv_line(k, v));
            &&& !is_skipped(t)
            &&& !is_header(t)
            &&& !is_array_header(t)
            &&& spec_parse_key_value(t) == Some((k, v))
        }),
{
    let line = kv_line(k, v);
    let tail = seq![' ', '"'] + v + seq!['"'];
    lemma_quoted_tail(v);
    if k.len() > 0 {
        assert(line[0] == k[0]);
        assert(line.last() == '"');
        lemma_trim_fixed(line);
        let i: int = k.len() + 1int;
        assert forall|j: int| 0 <= j < i implies #[trigger] line[j] != '=' by {
            if j < k.len() {
                assert(line[j] == k[j]);
            }
        }
        assert(line[i] == '=');
        lemma_first_index_of(line, '=', i);
        let head = line.take(i);
        assert(head =~= k + seq![' ']);
        assert forall|j: int| k.len() <= j < head.len() implies is_ws(#[trigger] head[j]) by {}
        lemma_trim_end_take(head, k.len() as int);
        assert(head.take(k.len() as int) =~= k);
        assert(head[0] == k[0]);
        lemma_trim_start_skip(head, 0);
        assert(head.skip(0) =~= head);
        lemma_trim_fixed(k);
        assert(line.skip(i + 1) =~= tail);
    } else {
        assert(line =~= seq![' '] + (seq!['=', ' ', '"'] + v + seq!['"']));
        let u = seq!['=', ' ', '"'] + v + seq!['"'];
        lemma_trim_start_prefix(seq![' '], u);
        assert(u.last() == '"');
        lemma_trim_fixed(u);
        assert(trim(line) == u);
        lemma_first_index_of(u, '=', 0);
        assert(u.take(0) =~= Seq::<char>::empty());
        lemma_trim_fixed(Seq::<char>::empty());
        assert(u.skip(1) =~= tail);
        assert(k =~= Seq::<char>::empty());
    }
}

// ---------------------------------------------------------------------------------------------
// Executable operations
// ---------------------------------------------------------------------------------------------

/// Whether a trimmed line carries nothing.
pub fn skipped(t: &Vec<char>) -> (r: bool)
    ensures
        r == is_skipped(t@),
{
    t.len() == 0 || t[0] == '#'
}

/// Whether a trimmed line starts with `[` and ends with `]`.
pub fn header(t: &Vec<char>) -> (r: bool)
    ensures
        r == is_header(t@),
{
    t.len() > 0 && t[0] == '[' && t[t.len() - 1] == ']'
}

/// Whether a trimmed line starts with `[[` and ends with `]]`.
pub fn array_header(t: &Vec<char>) -> (r: bool)
    ensures
        r == is_array_header(t@),
{
    t.len() >= 2 && t[0] == '[' && t[1] == '[' && t[t.len() - 2] == ']' && t[t.len() - 1] == ']'
}

/// The section that a header line names.
pub fn header_name(t: &Vec<char>) -> (r: Vec<char>)
    ensures
        r@ == section_name(t@),
{
    let a = drop_leading_chars(t, '[');
    let b = drop_trailing_chars(&a, ']');
    trim_chars(&b)
}

/// A value with one pair of surrounding double quotes removed, where it has them.
pub fn trim_quotes(value: &Vec<char>) -> (r: Vec<char>)
    ensures
        r@ == spec_trim_quotes(value@),
{
    let t = trim_chars(value);
    if t.len() >= 2 && t[0] == '"' && t[t.len() - 1] == '"' {
        slice_chars(&t, 1, t.len() - 1)
    } else {
        t
    }
}

/// The key and value of a `key = value` line; `None` where the line has no `=`.
pub fn parse_key_value(line: &Vec<char>) -> (r: Option<(Vec<char>, Vec<char>)>)
    ensures
        match r {
            Some(kv) => spec_parse_key_value(line@) == Some((kv.0@, kv.1@)),
            None => spec_parse_key_value(line@) is None,
        },
{
    let i = index_of(line, '=');
    if i < line.len() {
        let key_part = slice_chars(line, 0, i);
        let rest = slice_chars(line, i + 1, line.len());
        assert(key_part@ =~= line@.take(i as int));
        assert(rest@ =~= line@.skip(i + 1));
        let key = trim_chars(&key_part);
        let rest_t = trim_chars(&rest);
        let value = trim_quotes(&rest_t);
        Some((key, value))
    } else {
        None
    }
}


/// Appends `line` and its line break to `out`.
pub fn push_line(out: &mut String, line: &Vec<char>)
    ensures
        final(out)@ == old(out)@ + unlines(seq![line@]),
{
    push_chars(out, line);
    push_char(out, '\n');
    proof {
        lemma_unlines_push(Seq::<Seq<char>>::empty(), line@);
        assert(Seq::<Seq<char>>::empty().push(line@) =~= seq![line@]);
        assert(unlines(Seq::<Seq<char>>::empty()) =~= Seq::<char>::empty());
    }
    assert(out@ =~= old(out)@ + unlines(seq![line@]));
}

/// Appends the header line `[name]` to `out`.
pub fn push_header(out: &mut String, name: &str)
    ensures
        final(out)@ == old(out)@ + unlines(seq![header_line(name@)]),
{
    let mut line: Vec<char> = Vec::new();
    line.push('[');
    let n = chars_of(name);
    let mut i: usize = 0;
    while i < n.len()
        invariant
            i <= n.len(),
            line@ == seq!['['] + n@.take(i as int),
        decreases n.len() - i,
    {
        line.push(n[i]);
        assert(seq!['['] + n@.take(i + 1) =~= (seq!['['] + n@.take(i as int)).push(n@[i as int]));
        i = i + 1;
    }
    line.push(']');
    assert(n@.take(n.len() as int) =~= n@);
    assert(line@ =~= header_line(name@));
    push_line(out, &line);
}

/// Appends the line `[[name]]` to `out`.
pub fn push_array_header(out: &mut String, name: &str)
    ensures
        final(out)@ == old(out)@ + unlines(seq![array_header_line(name@)]),
{
    let mut line: Vec<char> = Vec::new();
    line.push('[');
    line.push('[');
    let n = chars_of(name);
    let mut i: usize = 0;
    while i < n.len()
        invariant
            i <= n.len(),
            line@ == seq!['[', '['] + n@.take(i as int),
        decreases n.len() - i,
    {
        line.push(n[i]);
        assert(seq!['[', '['] + n@.take(i + 1) =~= (seq!['[', '['] + n@.take(i as int)).push(
            n@[i as int],
        ));
        i = i + 1;
    }
    line.push(']');
    line.push(']');
    assert(n@.take(n.len() as int) =~= n@);
    assert(line@ =~= array_header_line(name@));
    push_line(out, &line);
}

/// Appends an empty line to `out`.
pub fn push_blank(out: &mut String)
    ensures
        final(out)@ == old(out)@ + unlines(seq![Seq::<char>::empty()]),
{
    let line: Vec<char> = Vec::new();
    push_line(out, &line);
}

/// Appends the line `key = "value"` to `out`.
pub fn push_kv(out: &mut String, key: &Vec<char>, value: &Vec<char>)
    ensures
        final(out)@ == old(out)@ + unlines(seq![kv_line(key@, value@)]),
{
    let mut line: Vec<char> = Vec::new();
    let mut i: usize = 0;
    while i < key.len()
        invariant
            i <= key.len(),
            line@ == key@.take(i as int),
        decreases key.len() - i,
    {
        line.push(key[i]);
        assert(key@.take(i + 1) =~= key@.take(i as int).push(key@[i as int]));
        i = i + 1;
    }
    line.push(' ');
    line.push('=');
    line.push(' ');
    line.push('"');
    let ghost mid = line@;
    let mut j: usize = 0;
    while j < value.len()
        invariant
            j <= value.len(),
            line@ == mid + value@.take(j as int),
        decreases value.len() - j,
    {
        line.push(value[j]);
        assert(mid + value@.take(j + 1) =~= (mid + value@.take(j as int)).push(value@[j as int]));
        j = j + 1;
    }
    line.push('"');
    assert(key@.take(key.len() as int) =~= key@);
    assert(value@.take(value.len() as int) =~= value@);
    assert(line@ =~= kv_line(key@, value@));
    push_line(out, &line);
}

} // verus!
