//! Character-level text operations used by the line-based formats of the library.
//!
//! Strings are modelled by their view, a `Seq<char>`. Every operation here states its result
//! over that view.
use vstd::prelude::*;

verus! {

// ---------------------------------------------------------------------------------------------
// Specifications
// ---------------------------------------------------------------------------------------------

/// Unicode `White_Space`, the set that `char::is_whitespace` and `str::trim` use.
pub open spec fn is_ws(c: char) -> bool {
    let n = c as u32;
    ||| 9 <= n <= 13
    ||| n == 32
    ||| n == 0x85
    ||| n == 0xa0
    ||| n == 0x1680
    ||| 0x2000 <= n <= 0x200a
    ||| n == 0x2028
    ||| n == 0x2029
    ||| n == 0x202f
    ||| n == 0x205f
    ||| n == 0x3000
}

/// `s` without its leading whitespace.
pub open spec fn trim_start(s: Seq<char>) -> Seq<char>
    decreases s.len(),
{
    if s.len() > 0 && is_ws(s[0]) {
        trim_start(s.drop_first())
    } else {
        s
    }
}

/// `s` without its trailing whitespace.
pub open spec fn trim_end(s: Seq<char>) -> Seq<char>
    decreases s.len(),
{
    if s.len() > 0 && is_ws(s.last()) {
        trim_end(s.drop_last())
    } else {
        s
    }
}

/// `s` without leading and trailing whitespace (`str::trim`).
pub open spec fn trim(s: Seq<char>) -> Seq<char> {
    trim_end(trim_start(s))
}

/// `s` without any leading copies of `c` (`str::trim_start_matches` with a char).
pub open spec fn drop_leading(s: Seq<char>, c: char) -> Seq<char>
    decreases s.len(),
{
    if s.len() > 0 && s[0] == c {
        drop_leading(s.drop_first(), c)
    } else {
        s
    }
}

/// `s` without any trailing copies of `c` (`str::trim_end_matches` with a char).
pub open spec fn drop_trailing(s: Seq<char>, c: char) -> Seq<char>
    decreases s.len(),
{
    if s.len() > 0 && s.last() == c {
        drop_trailing(s.drop_last(), c)
    } else {
        s
    }
}

/// `p` is a prefix of `s`.
pub open spec fn starts_with(s: Seq<char>, p: Seq<char>) -> bool {
    p.len() <= s.len() && s.take(p.len() as int) == p
}

/// `p` is a suffix of `s`.
pub open spec fn ends_with(s: Seq<char>, p: Seq<char>) -> bool {
    p.len() <= s.len() && s.skip(s.len() - p.len()) == p
}

/// `n` occurs in `h` as a contiguous piece (`str::contains` with a string pattern).
pub open spec fn contains_seq(h: Seq<char>, n: Seq<char>) -> bool {
    exists|i: int| 0 <= i && i + n.len() <= h.len() && #[trigger] h.subrange(i, i + n.len()) == n
}

/// The index of the first `c` in `s`, or `s.len()` where there is none.
pub open spec fn first_index_of(s: Seq<char>, c: char) -> nat
    decreases s.len(),
{
    if s.len() == 0 {
        0
    } else if s[0] == c {
        0
    } else {
        1 + first_index_of(s.drop_first(), c)
    }
}

/// The pieces of `s` between `'\n'` characters, in order (`str::split('\n')`).
pub open spec fn split_lines(s: Seq<char>) -> Seq<Seq<char>>
    decreases s.len(),
{
    if s.len() == 0 {
        seq![Seq::<char>::empty()]
    } else {
        let r = split_lines(s.drop_last());
        if s.last() == '\n' {
            r.push(Seq::<char>::empty())
        } else {
            r.update(r.len() - 1, r.last().push(s.last()))
        }
    }
}

/// The lines `ls`, each followed by `'\n'`, one after the other.
pub open spec fn unlines(ls: Seq<Seq<char>>) -> Seq<char>
    decreases ls.len(),
{
    if ls.len() == 0 {
        Seq::<char>::empty()
    } else {
        unlines(ls.drop_last()) + ls.last() + seq!['\n']
    }
}

/// The items `parts` with `sep` between each two neighbours (`[&str]::join`).
pub open spec fn join_with(parts: Seq<Seq<char>>, sep: Seq<char>) -> Seq<char>
    decreases parts.len(),
{
    if parts.len() == 0 {
        Seq::<char>::empty()
    } else if parts.len() == 1 {
        parts[0]
    } else {
        join_with(parts.drop_last(), sep) + sep + parts.last()
    }
}

/// The ASCII lower-case form of one character (`char::to_ascii_lowercase`).
pub open spec fn ascii_lower(c: char) -> char {
    if 'A' <= c && c <= 'Z' {
        ((c as u32) + 32) as char
    } else {
        c
    }
}

/// The ASCII lower-case form of a string (`str::to_ascii_lowercase`).
pub open spec fn ascii_lower_seq(s: Seq<char>) -> Seq<char> {
    s.map_values(|c: char| ascii_lower(c))
}

/// `c` does not occur in `s`.
pub open spec fn lacks(s: Seq<char>, c: char) -> bool {
    forall|i: int| 0 <= i < s.len() ==> s[i] != c
}

/// The character of the decimal digit `d`.
pub open spec fn digit_char(d: nat) -> char {
    (48 + d) as char
}

/// The decimal digits of `n`, most significant first, without leading zeros.
pub open spec fn decimal(n: nat) -> Seq<char>
    decreases n,
{
    if n < 10 {
        seq![digit_char(n)]
    } else {
        decimal(n / 10).push(digit_char(n % 10))
    }
}

/// The views of a sequence of character vectors.
pub open spec fn views(ls: Seq<Vec<char>>) -> Seq<Seq<char>> {
    ls.map_values(|l: Vec<char>| l@)
}

/// The views of a list of strings.
pub open spec fn strings_view(ss: Seq<String>) -> Seq<Seq<char>> {
    ss.map_values(|s: String| s@)
}

/// The view of an optional string slice.
pub open spec fn opt_str(o: Option<&str>) -> Option<Seq<char>> {
    match o {
        Some(s) => Some(s@),
        None => None,
    }
}

/// The view of an optional string.
pub open spec fn opt_view(o: Option<String>) -> Option<Seq<char>> {
    match o {
        Some(s) => Some(s@),
        None => None,
    }
}

/// The escaped form of one character inside a double-quoted value: `\` and `"` get a
/// backslash in front.
pub open spec fn escape_char(c: char) -> Seq<char> {
    if c == '\\' {
        seq!['\\', '\\']
    } else if c == '"' {
        seq!['\\', '"']
    } else {
        seq![c]
    }
}

/// `s` with every `\` and `"` escaped by a backslash
/// (`s.replace('\\', "\\\\").replace('"', "\\\"")`).
pub open spec fn escaped(s: Seq<char>) -> Seq<char>
    decreases s.len(),
{
    if s.len() == 0 {
        Seq::<char>::empty()
    } else {
        escaped(s.drop_last()) + escape_char(s.last())
    }
}

/// The escaped form of one character inside a JSON string: as [`escape_char`], and a line
/// break becomes `\n`.
pub open spec fn json_escape_char(c: char) -> Seq<char> {
    if c == '\n' {
        seq!['\\', 'n']
    } else {
        escape_char(c)
    }
}

/// `s` with `\`, `"` and line breaks escaped for a JSON string.
pub open spec fn json_escaped(s: Seq<char>) -> Seq<char>
    decreases s.len(),
{
    if s.len() == 0 {
        Seq::<char>::empty()
    } else {
        json_escaped(s.drop_last()) + json_escape_char(s.last())
    }
}

/// The character that the JSON escape `\c` stands for, for every JSON escape but `\u`.
pub open spec fn json_escape_target(c: char) -> Option<char> {
    if c == '"' {
        Some('"')
    } else if c == '\\' {
        Some('\\')
    } else if c == '/' {
        Some('/')
    } else if c == 'b' {
        Some('\u{8}')
    } else if c == 'f' {
        Some('\u{c}')
    } else if c == 'n' {
        Some('\n')
    } else if c == 'r' {
        Some('\r')
    } else if c == 't' {
        Some('\t')
    } else {
        None
    }
}

/// The value of the body of a JSON string literal (what stands between its quotes), for
/// bodies without `\u` escapes: `None` where the body holds an unescaped `"` or control
/// character, a `\` at its end, or a `\` before a character that no escape but `\u` uses;
/// a `\u` escape, which this does not decode, gives `None` too.
pub open spec fn json_string_value(s: Seq<char>) -> Option<Seq<char>>
    decreases s.len(),
{
    if s.len() == 0 {
        Some(Seq::<char>::empty())
    } else if s[0] == '\\' {
        if s.len() >= 2 && json_escape_target(s[1]) is Some {
            match json_string_value(s.skip(2)) {
                Some(r) => Some(seq![json_escape_target(s[1])->0] + r),
                None => None,
            }
        } else {
            None
        }
    } else if s[0] == '"' || (s[0] as u32) < 32 {
        None
    } else {
        match json_string_value(s.drop_first()) {
            Some(r) => Some(seq![s[0]] + r),
            None => None,
        }
    }
}

// ---------------------------------------------------------------------------------------------
// Lemmas
// ---------------------------------------------------------------------------------------------

/// Escaping for JSON works character by character.
pub proof fn lemma_json_escaped_append(a: Seq<char>, b: Seq<char>)
    ensures
        json_escaped(a + b) == json_escaped(a) + json_escaped(b),
    decreases b.len(),
{
    if b.len() == 0 {
        assert(a + b =~= a);
        assert(json_escaped(a) + json_escaped(b) =~= json_escaped(a));
    } else {
        lemma_json_escaped_append(a, b.drop_last());
        assert((a + b).drop_last() =~= a + b.drop_last());
        assert((a + b).last() == b.last());
        assert(json_escaped(a + b) =~= json_escaped(a) + json_escaped(b));
    }
}

/// The JSON-escaped form of a string holds no raw line break.
pub proof fn lemma_json_escaped_lacks_newline(v: Seq<char>)
    ensures
        lacks(json_escaped(v), '\n'),
    decreases v.len(),
{
    if v.len() > 0 {
        lemma_json_escaped_lacks_newline(v.drop_last());
        let a = json_escaped(v.drop_last());
        let b = json_escape_char(v.last());
        assert forall|i: int| 0 <= i < (a + b).len() implies (a + b)[i] != '\n' by {
            if i < a.len() {
                assert((a + b)[i] == a[i]);
            } else {
                assert((a + b)[i] == b[i - a.len()]);
            }
        }
    }
}

/// Decoding, as the body of a JSON string, the JSON-escaped form of a string without control
/// characters other than line breaks gives the string back.
pub proof fn lemma_json_escaped_decodes(v: Seq<char>)
    requires
        forall|i: int| 0 <= i < v.len() ==> #[trigger] v[i] == '\n' || (v[i] as u32) >= 32,
    ensures
        json_string_value(json_escaped(v)) == Some(v),
    decreases v.len(),
{
    if v.len() == 0 {
        assert(json_escaped(v) =~= Seq::<char>::empty());
    } else {
        let c = v[0];
        let rest = v.drop_first();
        assert forall|i: int| 0 <= i < rest.len() implies #[trigger] rest[i] == '\n' || (rest[i] as u32)
            >= 32 by {
            assert(rest[i] == v[i + 1]);
        }
        lemma_json_escaped_decodes(rest);
        lemma_json_escaped_append(seq![c], rest);
        assert(seq![c] + rest =~= v);
        assert(seq![c].drop_last() =~= Seq::<char>::empty());
        assert(seq![c].last() == c);
        assert(json_escaped(Seq::<char>::empty()) =~= Seq::<char>::empty());
        assert(json_escaped(seq![c]) =~= json_escape_char(c));
        let e = json_escaped(rest);
        let s = json_escaped(v);
        assert(s == json_escape_char(c) + e);
        if c == '\\' || c == '"' || c == '\n' {
            assert(s.skip(2) =~= e);
            assert(s[0] == '\\');
        } else {
            assert(s[0] == c);
            assert(s.drop_first() =~= e);
        }
        assert(seq![c] + rest =~= v);
    }
}

/// A string without `\` and `"` is its own escaped form.
pub proof fn lemma_escaped_plain(s: Seq<char>)
    requires
        lacks(s, '\\'),
        lacks(s, '"'),
    ensures
        escaped(s) == s,
    decreases s.len(),
{
    if s.len() > 0 {
        let t = s.drop_last();
        assert forall|i: int| 0 <= i < t.len() implies t[i] != '\\' && t[i] != '"' by {
            assert(t[i] == s[i]);
        }
        lemma_escaped_plain(t);
        assert(s.last() == s[s.len() - 1]);
        assert(t + seq![s.last()] =~= s);
    }
}

pub proof fn lemma_trim_start_skip(s: Seq<char>, i: int)
    requires
        0 <= i <= s.len(),
        forall|k: int| 0 <= k < i ==> is_ws(#[trigger] s[k]),
        i < s.len() ==> !is_ws(s[i]),
    ensures
        trim_start(s) == s.skip(i),
    decreases i,
{
    if i == 0 {
        assert(s.skip(0) =~= s);
    } else {
        let t = s.drop_first();
        assert forall|k: int| 0 <= k < i - 1 implies is_ws(#[trigger] t[k]) by {
            assert(t[k] == s[k + 1]);
        }
        lemma_trim_start_skip(t, i - 1);
        assert(t.skip(i - 1) =~= s.skip(i));
    }
}

pub proof fn lemma_trim_end_take(s: Seq<char>, j: int)
    requires
        0 <= j <= s.len(),
        forall|k: int| j <= k < s.len() ==> is_ws(#[trigger] s[k]),
        j > 0 ==> !is_ws(s[j - 1]),
    ensures
        trim_end(s) == s.take(j),
    decreases s.len() - j,
{
    if j == s.len() {
        assert(s.take(j) =~= s);
    } else {
        let t = s.drop_last();
        assert forall|k: int| j <= k < t.len() implies is_ws(#[trigger] t[k]) by {
            assert(t[k] == s[k]);
        }
        lemma_trim_end_take(t, j);
        assert(t.take(j) =~= s.take(j));
    }
}

/// A string whose first and last characters are not whitespace is its own trim.
pub proof fn lemma_trim_fixed(s: Seq<char>)
    requires
        s.len() > 0 ==> !is_ws(s[0]) && !is_ws(s.last()),
    ensures
        trim(s) == s,
        trim_start(s) == s,
        trim_end(s) == s,
{
    lemma_trim_start_skip(s, 0);
    assert(s.skip(0) =~= s);
    lemma_trim_end_take(s, s.len() as int);
    assert(s.take(s.len() as int) =~= s);
}

/// Leading whitespace before a string that does not start with whitespace is removed.
pub proof fn lemma_trim_start_prefix(w: Seq<char>, s: Seq<char>)
    requires
        forall|k: int| 0 <= k < w.len() ==> is_ws(#[trigger] w[k]),
        s.len() > 0 ==> !is_ws(s[0]),
    ensures
        trim_start(w + s) == s,
{
    let ws = w + s;
    assert forall|k: int| 0 <= k < w.len() implies is_ws(#[trigger] ws[k]) by {
        assert(ws[k] == w[k]);
    }
    if w.len() < ws.len() {
        assert(ws[w.len() as int] == s[0]);
    }
    lemma_trim_start_skip(ws, w.len() as int);
    assert(ws.skip(w.len() as int) =~= s);
}

pub proof fn lemma_first_index_of(s: Seq<char>, c: char, i: int)
    requires
        0 <= i <= s.len(),
        forall|k: int| 0 <= k < i ==> #[trigger] s[k] != c,
        i < s.len() ==> s[i] == c,
    ensures
        first_index_of(s, c) == i,
    decreases i,
{
    if i > 0 {
        let t = s.drop_first();
        assert(s[0] != c);
        assert forall|k: int| 0 <= k < i - 1 implies #[trigger] t[k] != c by {
            assert(t[k] == s[k + 1]);
        }
        lemma_first_index_of(t, c, i - 1);
    }
}

/// Characters other than `'\n'` appended to a text extend its last piece.
pub proof fn lemma_split_lines_append(s: Seq<char>, l: Seq<char>)
    requires
        lacks(l, '\n'),
    ensures
        split_lines(s + l).len() == split_lines(s).len(),
        split_lines(s + l) == split_lines(s).update(
            split_lines(s).len() - 1,
            split_lines(s).last() + l,
        ),
        split_lines(s).len() >= 1,
    decreases l.len(),
{
    lemma_split_lines_nonempty(s);
    if l.len() == 0 {
        assert(s + l =~= s);
        assert(split_lines(s).last() + l =~= split_lines(s).last());
        assert(split_lines(s).update(split_lines(s).len() - 1, split_lines(s).last())
            =~= split_lines(s));
    } else {
        let l0 = l.drop_last();
        assert forall|i: int| 0 <= i < l0.len() implies l0[i] != '\n' by {
            assert(l0[i] == l[i]);
        }
        lemma_split_lines_append(s, l0);
        assert((s + l).drop_last() =~= s + l0);
        assert((s + l).last() == l.last());
        lemma_split_lines_nonempty(s + l0);
        assert(split_lines(s).last() + l0 + seq![l.last()] =~= split_lines(s).last() + l);
        assert((split_lines(s).last() + l0).push(l.last()) =~= split_lines(s).last() + l);
        assert(split_lines(s + l) =~= split_lines(s).update(
            split_lines(s).len() - 1,
            split_lines(s).last() + l,
        ));
    }
}

pub proof fn lemma_split_lines_nonempty(s: Seq<char>)
    ensures
        split_lines(s).len() >= 1,
    decreases s.len(),
{
    if s.len() > 0 {
        lemma_split_lines_nonempty(s.drop_last());
    }
}

/// The last piece of a text that is empty or ends with `'\n'` is empty.
pub proof fn lemma_split_lines_last_empty(x: Seq<char>)
    requires
        x.len() == 0 || x.last() == '\n',
    ensures
        split_lines(x).len() >= 1,
        split_lines(x).last() == Seq::<char>::empty(),
        split_lines(x) == split_lines(x).drop_last().push(Seq::<char>::empty()),
{
    lemma_split_lines_nonempty(x);
    if x.len() > 0 {
        lemma_split_lines_nonempty(x.drop_last());
    }
    assert(split_lines(x) =~= split_lines(x).drop_last().push(split_lines(x).last()));
}

/// After a text that is empty or ends with `'\n'`, the pieces of what follows come on their
/// own.
pub proof fn lemma_split_lines_concat(x: Seq<char>, y: Seq<char>)
    requires
        x.len() == 0 || x.last() == '\n',
    ensures
        split_lines(x + y) == split_lines(x).drop_last() + split_lines(y),
    decreases y.len(),
{
    lemma_split_lines_last_empty(x);
    let d = split_lines(x).drop_last();
    if y.len() == 0 {
        assert(x + y =~= x);
        assert(split_lines(y) =~= seq![Seq::<char>::empty()]);
        assert(d + split_lines(y) =~= d.push(Seq::<char>::empty()));
    } else {
        let y0 = y.drop_last();
        let c = y.last();
        lemma_split_lines_concat(x, y0);
        assert((x + y).drop_last() =~= x + y0);
        assert((x + y).last() == c);
        assert(y.drop_last() == y0);
        lemma_split_lines_nonempty(y0);
        let s0 = split_lines(y0);
        let r = d + s0;
        if c == '\n' {
            assert(r.push(Seq::<char>::empty()) =~= d + s0.push(Seq::<char>::empty()));
        } else {
            assert(r.update(r.len() - 1, r.last().push(c)) =~= d + s0.update(
                s0.len() - 1,
                s0.last().push(c),
            ));
        }
    }
}

/// A line without `'\n'`, its line break and a rest split into that line and the pieces of
/// the rest.
pub proof fn lemma_split_lines_first_line(l: Seq<char>, b: Seq<char>)
    requires
        lacks(l, '\n'),
    ensures
        split_lines(l + seq!['\n'] + b) == seq![l] + split_lines(b),
{
    let e = Seq::<char>::empty();
    lemma_split_lines_append(e, l);
    assert(e + l =~= l);
    assert(split_lines(e) =~= seq![e]);
    assert(split_lines(l) =~= seq![l]);
    let x = l + seq!['\n'];
    assert(x.drop_last() =~= l);
    assert(split_lines(x) =~= seq![l, e]);
    lemma_split_lines_concat(x, b);
    assert(seq![l, e].drop_last() =~= seq![l]);
}

/// Splitting lines that each end with `'\n'` gives those lines and one empty piece.
pub proof fn lemma_split_unlines(ls: Seq<Seq<char>>)
    requires
        forall|i: int| 0 <= i < ls.len() ==> lacks(#[trigger] ls[i], '\n'),
    ensures
        split_lines(unlines(ls)) == ls.push(Seq::<char>::empty()),
    decreases ls.len(),
{
    if ls.len() == 0 {
        assert(split_lines(Seq::<char>::empty()) =~= seq![Seq::<char>::empty()]);
        assert(ls.push(Seq::<char>::empty()) =~= seq![Seq::<char>::empty()]);
    } else {
        let init = ls.drop_last();
        assert forall|i: int| 0 <= i < init.len() implies lacks(#[trigger] init[i], '\n') by {
            assert(init[i] == ls[i]);
        }
        lemma_split_unlines(init);
        let p = unlines(init);
        let l = ls.last();
        assert(lacks(ls[ls.len() - 1], '\n'));
        lemma_split_lines_append(p, l);
        let q = p + l;
        let t = q + seq!['\n'];
        assert(unlines(ls) == t);
        assert(t.drop_last() =~= q);
        assert(t.last() == '\n');
        let sp = split_lines(p);
        assert(sp == init.push(Seq::<char>::empty()));
        assert(sp.last() + l =~= l);
        assert(split_lines(q) =~= init.push(l));
        assert(init.push(l) =~= ls);
    }
}

pub proof fn lemma_unlines_append(a: Seq<Seq<char>>, b: Seq<Seq<char>>)
    ensures
        unlines(a + b) == unlines(a) + unlines(b),
    decreases b.len(),
{
    if b.len() == 0 {
        assert(a + b =~= a);
        assert(unlines(a) + unlines(b) =~= unlines(a));
    } else {
        lemma_unlines_append(a, b.drop_last());
        assert((a + b).drop_last() =~= a + b.drop_last());
        assert((a + b).last() == b.last());
        assert(unlines(a + b) =~= unlines(a) + unlines(b));
    }
}

pub proof fn lemma_unlines_push(a: Seq<Seq<char>>, l: Seq<char>)
    ensures
        unlines(a.push(l)) == unlines(a) + l + seq!['\n'],
{
    assert(a.push(l).drop_last() =~= a);
}

// ---------------------------------------------------------------------------------------------
// Executable operations
// ---------------------------------------------------------------------------------------------

/// Appends one character to a string.
///
/// Trusted: calls `String::push`, which the standard library documents as appending the
/// given character to the end of the string.
#[verifier::external_body]
pub(crate) fn push_char(s: &mut String, c: char)
    ensures
        final(s)@ == old(s)@.push(c),
{
    s.push(c);
}

/// The characters of a string slice, in order.
pub fn chars_of(s: &str) -> (out: Vec<char>)
    ensures
        out@ == s@,
{
    let mut out: Vec<char> = Vec::new();
    for c in it: s.chars()
        invariant
            out@ == it.seq().take(it.index() as int),
            it.seq() == s@,
    {
        out.push(c);
    }
    out
}

/// A string made of the given characters.
pub fn string_of(v: &Vec<char>) -> (out: String)
    ensures
        out@ == v@,
{
    let mut out = String::new();
    let mut i: usize = 0;
    while i < v.len()
        invariant
            i <= v.len(),
            out@ == v@.take(i as int),
        decreases v.len() - i,
    {
        push_char(&mut out, v[i]);
        assert(v@.take(i as int).push(v@[i as int]) =~= v@.take(i + 1));
        i = i + 1;
    }
    assert(v@.take(v.len() as int) =~= v@);
    out
}

/// Appends the characters of `v` to `out`.
pub fn push_chars(out: &mut String, v: &Vec<char>)
    ensures
        final(out)@ == old(out)@ + v@,
{
    let mut i: usize = 0;
    while i < v.len()
        invariant
            i <= v.len(),
            out@ == old(out)@ + v@.take(i as int),
        decreases v.len() - i,
    {
        push_char(out, v[i]);
        assert(old(out)@ + v@.take(i as int) + seq![v@[i as int]] =~= old(out)@ + v@.take(i + 1));
        i = i + 1;
    }
    assert(v@.take(v.len() as int) =~= v@);
}

/// Appends a string slice to `out`.
pub fn push_str(out: &mut String, s: &str)
    ensures
        final(out)@ == old(out)@ + s@,
{
    let v = chars_of(s);
    push_chars(out, &v);
}

/// The characters `v[from..to]`.
pub fn slice_chars(v: &Vec<char>, from: usize, to: usize) -> (out: Vec<char>)
    requires
        from <= to <= v.len(),
    ensures
        out@ == v@.subrange(from as int, to as int),
{
    let mut out: Vec<char> = Vec::new();
    let mut i: usize = from;
    while i < to
        invariant
            from <= i <= to <= v.len(),
            out@ == v@.subrange(from as int, i as int),
        decreases to - i,
    {
        out.push(v[i]);
        assert(v@.subrange(from as int, i as int).push(v@[i as int]) =~= v@.subrange(
            from as int,
            i + 1,
        ));
        i = i + 1;
    }
    out
}

/// Whether `c` is Unicode whitespace (`char::is_whitespace`).
pub fn is_whitespace(c: char) -> (r: bool)
    ensures
        r == is_ws(c),
{
    let n = c as u32;
    (9 <= n && n <= 13) || n == 32 || n == 0x85 || n == 0xa0 || n == 0x1680 || (0x2000 <= n && n
        <= 0x200a) || n == 0x2028 || n == 0x2029 || n == 0x202f || n == 0x205f || n == 0x3000
}

/// `v` without leading and trailing whitespace (`str::trim`).
pub fn trim_chars(v: &Vec<char>) -> (out: Vec<char>)
    ensures
        out@ == trim(v@),
{
    let mut i: usize = 0;
    while i < v.len() && is_whitespace(v[i])
        invariant
            i <= v.len(),
            forall|k: int| 0 <= k < i ==> is_ws(#[trigger] v@[k]),
        decreases v.len() - i,
    {
        i = i + 1;
    }
    proof {
        lemma_trim_start_skip(v@, i as int);
    }
    let ghost t = v@.skip(i as int);
    let mut j: usize = v.len();
    while j > i && is_whitespace(v[j - 1])
        invariant
            i <= j <= v.len(),
            forall|k: int| j <= k < v.len() ==> is_ws(#[trigger] v@[k]),
        decreases j,
    {
        j = j - 1;
    }
    proof {
        assert forall|k: int| j - i <= k < t.len() implies is_ws(#[trigger] t[k]) by {
            assert(t[k] == v@[k + i]);
        }
        if j > i {
            assert(t[j - i - 1] == v@[j - 1]);
        }
        lemma_trim_end_take(t, j - i);
        assert(t.take(j - i) =~= v@.subrange(i as int, j as int));
    }
    slice_chars(v, i, j)
}

/// `v` without trailing whitespace (`str::trim_end`).
pub fn trim_end_chars(v: &Vec<char>) -> (out: Vec<char>)
    ensures
        out@ == trim_end(v@),
{
    let mut j: usize = v.len();
    while j > 0 && is_whitespace(v[j - 1])
        invariant
            j <= v.len(),
            forall|k: int| j <= k < v.len() ==> is_ws(#[trigger] v@[k]),
        decreases j,
    {
        j = j - 1;
    }
    proof {
        lemma_trim_end_take(v@, j as int);
    }
    slice_chars(v, 0, j)
}

/// Whether `a` and `b` hold the same characters.
pub fn chars_eq(a: &Vec<char>, b: &Vec<char>) -> (r: bool)
    ensures
        r == (a@ == b@),
{
    if a.len() != b.len() {
        return false;
    }
    let mut i: usize = 0;
    while i < a.len()
        invariant
            a.len() == b.len(),
            i <= a.len(),
            forall|k: int| 0 <= k < i ==> a@[k] == b@[k],
        decreases a.len() - i,
    {
        if a[i] != b[i] {
            return false;
        }
        i = i + 1;
    }
    assert(a@ =~= b@);
    true
}

/// Whether the characters of `a` spell the string slice `s`.
pub fn chars_eq_str(a: &Vec<char>, s: &str) -> (r: bool)
    ensures
        r == (a@ == s@),
{
    let b = chars_of(s);
    chars_eq(a, &b)
}

/// Whether `p` is a prefix of `v`.
pub fn starts_with_chars(v: &Vec<char>, p: &Vec<char>) -> (r: bool)
    ensures
        r == starts_with(v@, p@),
{
    if p.len() > v.len() {
        return false;
    }
    let mut i: usize = 0;
    while i < p.len()
        invariant
            p.len() <= v.len(),
            i <= p.len(),
            forall|k: int| 0 <= k < i ==> v@[k] == p@[k],
        decreases p.len() - i,
    {
        if v[i] != p[i] {
            assert(v@.take(p.len() as int)[i as int] == v@[i as int]);
            return false;
        }
        i = i + 1;
    }
    assert(v@.take(p.len() as int) =~= p@);
    true
}

/// Whether `p` is a suffix of `v`.
pub fn ends_with_chars(v: &Vec<char>, p: &Vec<char>) -> (r: bool)
    ensures
        r == ends_with(v@, p@),
{
    if p.len() > v.len() {
        return false;
    }
    let off = v.len() - p.len();
    let mut i: usize = 0;
    while i < p.len()
        invariant
            p.len() <= v.len(),
            off == v.len() - p.len(),
            i <= p.len(),
            forall|k: int| 0 <= k < i ==> v@[off + k] == p@[k],
        decreases p.len() - i,
    {
        if v[off + i] != p[i] {
            assert(v@.skip(off as int)[i as int] == v@[off + i]);
            return false;
        }
        i = i + 1;
    }
    assert(v@.skip(off as int) =~= p@);
    true
}

/// Whether the string slice `p` is a prefix of `v`.
pub fn starts_with_str(v: &Vec<char>, p: &str) -> (r: bool)
    ensures
        r == starts_with(v@, p@),
{
    let pc = chars_of(p);
    starts_with_chars(v, &pc)
}

/// Whether the string slice `p` is a suffix of `v`.
pub fn ends_with_str(v: &Vec<char>, p: &str) -> (r: bool)
    ensures
        r == ends_with(v@, p@),
{
    let pc = chars_of(p);
    ends_with_chars(v, &pc)
}

/// The index of the first `c` in `v`, or `v.len()` where there is none.
pub fn index_of(v: &Vec<char>, c: char) -> (r: usize)
    ensures
        r == first_index_of(v@, c),
        r <= v.len(),
{
    let mut i: usize = 0;
    while i < v.len() && v[i] != c
        invariant
            i <= v.len(),
            forall|k: int| 0 <= k < i ==> #[trigger] v@[k] != c,
        decreases v.len() - i,
    {
        i = i + 1;
    }
    proof {
        lemma_first_index_of(v@, c, i as int);
    }
    i
}

/// `v` without leading copies of `c`.
pub fn drop_leading_chars(v: &Vec<char>, c: char) -> (out: Vec<char>)
    ensures
        out@ == drop_leading(v@, c),
{
    let mut i: usize = 0;
    assert(v@.skip(0) =~= v@);
    while i < v.len() && v[i] == c
        invariant
            i <= v.len(),
            forall|k: int| 0 <= k < i ==> #[trigger] v@[k] == c,
            drop_leading(v@, c) == drop_leading(v@.skip(i as int), c),
        decreases v.len() - i,
    {
        assert(v@.skip(i as int).drop_first() =~= v@.skip(i + 1));
        i = i + 1;
    }
    assert(v@.skip(i as int) =~= v@.subrange(i as int, v.len() as int));
    slice_chars(v, i, v.len())
}

/// `v` without trailing copies of `c`.
pub fn drop_trailing_chars(v: &Vec<char>, c: char) -> (out: Vec<char>)
    ensures
        out@ == drop_trailing(v@, c),
{
    let mut j: usize = v.len();
    assert(v@.take(j as int) =~= v@);
    while j > 0 && v[j - 1] == c
        invariant
            j <= v.len(),
            drop_trailing(v@, c) == drop_trailing(v@.take(j as int), c),
        decreases j,
    {
        assert(v@.take(j as int).drop_last() =~= v@.take(j - 1));
        j = j - 1;
    }
    assert(v@.take(j as int) =~= v@.subrange(0, j as int));
    slice_chars(v, 0, j)
}

/// The pieces of `s` between `'\n'` characters.
pub fn lines_of(s: &Vec<char>) -> (out: Vec<Vec<char>>)
    ensures
        views(out@) == split_lines(s@),
{
    let mut done: Vec<Vec<char>> = Vec::new();
    let mut cur: Vec<char> = Vec::new();
    let mut i: usize = 0;
    assert(s@.take(0) =~= Seq::<char>::empty());
    assert(views(done@).push(cur@) =~= split_lines(Seq::<char>::empty()));
    while i < s.len()
        invariant
            i <= s.len(),
            views(done@).push(cur@) == split_lines(s@.take(i as int)),
        decreases s.len() - i,
    {
        let c = s[i];
        let ghost prev = s@.take(i as int);
        assert(s@.take(i + 1).drop_last() =~= prev);
        assert(s@.take(i + 1).last() == c);
        if c == '\n' {
            let finished = cur;
            done.push(finished);
            cur = Vec::new();
            assert(views(done@) =~= split_lines(prev));
        } else {
            cur.push(c);
            assert(views(done@).push(cur@) =~= split_lines(prev).update(
                split_lines(prev).len() - 1,
                split_lines(prev).last().push(c),
            ));
        }
        i = i + 1;
    }
    assert(s@.take(s.len() as int) =~= s@);
    done.push(cur);
    assert(views(done@) =~= split_lines(s@));
    done
}

/// Whether `n` occurs in `h` as a contiguous piece.
pub fn contains_chars(h: &Vec<char>, n: &Vec<char>) -> (r: bool)
    ensures
        r == contains_seq(h@, n@),
{
    if n.len() > h.len() {
        return false;
    }
    if n.len() == 0 {
        assert(h@.subrange(0int, 0int + n@.len()) =~= n@);
        return true;
    }
    let last = h.len() - n.len();
    let mut i: usize = 0;
    while i <= last
        invariant
            0 < n.len() <= h.len(),
            last == h.len() - n.len(),
            i <= last + 1,
            forall|p: int| 0 <= p < i ==> #[trigger] h@.subrange(p, p + n.len()) != n@,
        decreases last + 1 - i,
    {
        let mut k: usize = 0;
        let mut ok = true;
        while k < n.len()
            invariant
                n.len() <= h.len(),
                i <= last,
                last == h.len() - n.len(),
                k <= n.len(),
                ok ==> forall|q: int| 0 <= q < k ==> h@[i + q] == n@[q],
                !ok ==> h@.subrange(i as int, i + n.len()) != n@,
            decreases n.len() - k,
        {
            if ok && h[i + k] != n[k] {
                assert(h@.subrange(i as int, i + n.len())[k as int] == h@[i + k]);
                ok = false;
            }
            k = k + 1;
        }
        if ok {
            assert(h@.subrange(i as int, i + n.len()) =~= n@);
            return true;
        }
        i = i + 1;
    }
    assert forall|p: int| 0 <= p && p + n.len() <= h.len() implies #[trigger] h@.subrange(
        p,
        p + n.len(),
    ) != n@ by {
        assert(p < i);
    }
    false
}

/// The ASCII lower-case form of `v`.
pub fn ascii_lowercase(v: &Vec<char>) -> (out: Vec<char>)
    ensures
        out@ == ascii_lower_seq(v@),
{
    let mut out: Vec<char> = Vec::new();
    let mut i: usize = 0;
    while i < v.len()
        invariant
            i <= v.len(),
            out@ == ascii_lower_seq(v@.take(i as int)),
        decreases v.len() - i,
    {
        let c = v[i];
        let l = if 'A' <= c && c <= 'Z' {
            let n = (c as u32) + 32;
            // 'a'..='z' are valid characters
            char_from_ascii(n)
        } else {
            c
        };
        out.push(l);
        assert(ascii_lower_seq(v@.take(i + 1)) =~= ascii_lower_seq(v@.take(i as int)).push(
            ascii_lower(c),
        ));
        i = i + 1;
    }
    assert(v@.take(v.len() as int) =~= v@);
    out
}

/// The character with ASCII code `n`.
fn char_from_ascii(n: u32) -> (c: char)
    requires
        n < 128,
    ensures
        c == n as char,
        c as u32 == n,
{
    let b = n as u8;
    b as char
}

/// The items of `parts` with `sep` between each two neighbours.
pub fn join_strs(parts: &Vec<&str>, sep: &str) -> (out: String)
    ensures
        out@ == join_with(parts@.map_values(|p: &str| p@), sep@),
{
    let ghost ps = parts@.map_values(|p: &str| p@);
    let mut out = String::new();
    let mut i: usize = 0;
    while i < parts.len()
        invariant
            i <= parts.len(),
            ps == parts@.map_values(|p: &str| p@),
            out@ == join_with(ps.take(i as int), sep@),
        decreases parts.len() - i,
    {
        let ghost prev = out@;
        if i > 0 {
            push_str(&mut out, sep);
        }
        push_str(&mut out, parts[i]);
        assert(ps.take(i + 1).drop_last() =~= ps.take(i as int));
        assert(ps.take(i + 1).last() == parts[i as int]@);
        if i == 0 {
            assert(ps.take(1)[0] == parts[0]@);
            assert(out@ =~= join_with(ps.take(1), sep@));
        }
        i = i + 1;
    }
    assert(ps.take(parts.len() as int) =~= ps);
    out
}

/// `v` with every `\` and `"` escaped by a backslash.
pub fn escape_quotes(v: &Vec<char>) -> (out: Vec<char>)
    ensures
        out@ == escaped(v@),
{
    let mut out: Vec<char> = Vec::new();
    let mut i: usize = 0;
    while i < v.len()
        invariant
            i <= v.len(),
            out@ == escaped(v@.take(i as int)),
        decreases v.len() - i,
    {
        let c = v[i];
        if c == '\\' {
            out.push('\\');
            out.push('\\');
        } else if c == '"' {
            out.push('\\');
            out.push('"');
        } else {
            out.push(c);
        }
        assert(v@.take(i + 1).drop_last() =~= v@.take(i as int));
        assert(out@ =~= escaped(v@.take(i as int)) + escape_char(c));
        i = i + 1;
    }
    assert(v@.take(v.len() as int) =~= v@);
    out
}

/// `v` with `\`, `"` and line breaks escaped for a JSON string.
pub fn escape_json_chars(v: &Vec<char>) -> (out: Vec<char>)
    ensures
        out@ == json_escaped(v@),
{
    let mut out: Vec<char> = Vec::new();
    let mut i: usize = 0;
    while i < v.len()
        invariant
            i <= v.len(),
            out@ == json_escaped(v@.take(i as int)),
        decreases v.len() - i,
    {
        let c = v[i];
        if c == '\\' {
            out.push('\\');
            out.push('\\');
        } else if c == '"' {
            out.push('\\');
            out.push('"');
        } else if c == '\n' {
            out.push('\\');
            out.push('n');
        } else {
            out.push(c);
        }
        assert(v@.take(i + 1).drop_last() =~= v@.take(i as int));
        assert(out@ =~= json_escaped(v@.take(i as int)) + json_escape_char(c));
        i = i + 1;
    }
    assert(v@.take(v.len() as int) =~= v@);
    out
}

/// Appends the decimal digits of `n` to `out`.
pub fn push_decimal(out: &mut String, n: u64)
    ensures
        final(out)@ == old(out)@ + decimal(n as nat),
    decreases n,
{
    if n >= 10 {
        push_decimal(out, n / 10);
    }
    let d = (n % 10) as u32;
    let c = char_from_ascii(48 + d);
    push_char(out, c);
    assert(out@ =~= old(out)@ + decimal(n as nat));
}

/// The strings of `parts` with `sep` between each two neighbours.
pub fn join_strings(parts: &Vec<String>, sep: &str) -> (out: String)
    ensures
        out@ == join_with(parts@.map_values(|p: String| p@), sep@),
{
    let ghost ps = parts@.map_values(|p: String| p@);
    let mut out = String::new();
    let mut i: usize = 0;
    while i < parts.len()
        invariant
            i <= parts.len(),
            ps == parts@.map_values(|p: String| p@),
            out@ == join_with(ps.take(i as int), sep@),
        decreases parts.len() - i,
    {
        if i > 0 {
            push_str(&mut out, sep);
        }
        push_str(&mut out, parts[i].as_str());
        assert(ps.take(i + 1).drop_last() =~= ps.take(i as int));
        assert(ps.take(i + 1).last() == parts[i as int]@);
        if i == 0 {
            assert(ps.take(1)[0] == parts[0]@);
            assert(out@ =~= join_with(ps.take(1), sep@));
        }
        i = i + 1;
    }
    assert(ps.take(parts.len() as int) =~= ps);
    out
}

/// `s` without leading and trailing whitespace, as a new string.
pub fn trim_string(s: &str) -> (r: String)
    ensures
        r@ == trim(s@),
{
    let c = chars_of(s);
    let t = trim_chars(&c);
    string_of(&t)
}

/// A version argument: trimmed, without any leading `v`s (`s.trim().trim_start_matches('v')`).
pub open spec fn version_arg(s: Seq<char>) -> Seq<char> {
    drop_leading(trim(s), 'v')
}

/// A version argument (see [`version_arg`]), as a new string.
pub fn trim_version(s: &str) -> (r: String)
    ensures
        r@ == version_arg(s@),
{
    let c = chars_of(s);
    let t = trim_chars(&c);
    let v = drop_leading_chars(&t, 'v');
    string_of(&v)
}

/// Copies of the strings `v[from..]`.
pub fn strings_from(v: &Vec<String>, from: usize) -> (r: Vec<String>)
    requires
        from <= v.len(),
    ensures
        strings_view(r@) == strings_view(v@).skip(from as int),
{
    let mut r: Vec<String> = Vec::new();
    let mut i: usize = from;
    while i < v.len()
        invariant
            from <= i <= v.len(),
            strings_view(r@) == strings_view(v@).subrange(from as int, i as int),
        decreases v.len() - i,
    {
        let ghost before = r@;
        let s = v[i].clone();
        assert(s@ == v@[i as int]@);
        r.push(s);
        assert(r@ == before.push(s));
        assert(strings_view(r@) =~= strings_view(before).push(s@));
        assert(strings_view(v@).subrange(from as int, i + 1) =~= strings_view(v@).subrange(
            from as int,
            i as int,
        ).push(strings_view(v@)[i as int]));
        assert(strings_view(r@) =~= strings_view(v@).subrange(from as int, i + 1));
        i = i + 1;
    }
    assert(strings_view(v@).subrange(from as int, v.len() as int) =~= strings_view(v@).skip(
        from as int,
    ));
    r
}

} // verus!
