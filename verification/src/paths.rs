//! Paths as `/`-separated strings, joined as `PathBuf::push` joins them on Unix. The library
//! joins with `/` on every platform.
use vstd::prelude::*;

use crate::text::{chars_of, push_char, push_str};

verus! {

/// `part` appended to `base`: a `part` that starts with `/` replaces `base`; otherwise a `/`
/// separates the two unless `base` is empty or already ends with one.
pub open spec fn join_path(base: Seq<char>, part: Seq<char>) -> Seq<char> {
    if part.len() > 0 && part[0] == '/' {
        part
    } else if base.len() == 0 || base.last() == '/' {
        base + part
    } else {
        base + seq!['/'] + part
    }
}

/// `part` appended to `base` as a path.
pub fn join(base: &str, part: &str) -> (r: String)
    ensures
        r@ == join_path(base@, part@),
{
    let pc = chars_of(part);
    if pc.len() > 0 && pc[0] == '/' {
        return part.to_owned();
    }
    let bc = chars_of(base);
    let mut out = base.to_owned();
    if bc.len() > 0 && bc[bc.len() - 1] != '/' {
        push_char(&mut out, '/');
    }
    push_str(&mut out, part);
    out
}

} // verus!
