//! Text decisions of the status bar: workspace labels and whether a theme
//! setting names a file.
use vstd::prelude::*;

use crate::text::{chars_of, starts_with_spec, strip_prefix};

verus! {

/// A workspace's label: its name without a leading `ws-`.
pub open spec fn ws_label_spec(name: Seq<char>) -> Seq<char> {
    if starts_with_spec(name, "ws-"@) {
        name.skip("ws-"@.len() as int)
    } else {
        name
    }
}

/// The label shown for a workspace: `"ws-3"` becomes `"3"`.
pub fn ws_label(name: &str) -> (r: String)
    ensures
        r@ == ws_label_spec(name@),
{
    match strip_prefix(name, "ws-") {
        Some(rest) => String::from_str(rest),
        None => String::from_str(name),
    }
}

/// Whether a theme setting is a path: it starts with `/`, `.` or `~`, or
/// contains a `/`.
pub open spec fn looks_like_path_spec(s: Seq<char>) -> bool {
    (s.len() > 0 && (s[0] == '/' || s[0] == '.' || s[0] == '~')) || s.contains('/')
}

/// Whether a theme setting names a file rather than a built-in theme.
pub fn looks_like_path(s: &str) -> (r: bool)
    ensures
        r == looks_like_path_spec(s@),
{
    let cs = chars_of(s);
    if cs.len() > 0 && (cs[0] == '/' || cs[0] == '.' || cs[0] == '~') {
        return true;
    }
    let mut i: usize = 0;
    while i < cs.len()
        invariant
            cs@ == s@,
            i <= cs@.len(),
            forall|j: int| 0 <= j < i ==> cs@[j] != '/',
        decreases cs@.len() - i,
    {
        if cs[i] == '/' {
            assert(s@[i as int] == '/');
            return true;
        }
        i = i + 1;
    }
    false
}

} // verus!
