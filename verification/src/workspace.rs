use vstd::prelude::*;

pub mod collections;
pub mod edits;
pub mod environments;
pub mod tree;

use crate::text::{owned, seq_contains, to_chars, contains_chars, chars_eq_str};

verus! {

/// An entity ID is usable as a file name: not empty, no `/` or `\`, and
/// neither `.` nor `..`.
pub open spec fn is_safe_id(value: Seq<char>) -> bool {
    &&& value.len() > 0
    &&& !value.contains('/')
    &&& !value.contains('\\')
    &&& value != seq!['.']
    &&& value != seq!['.', '.']
}

/// Accepts an ID that names a single file, refuses any other.
pub fn safe_id(value: &str) -> (r: Result<&str, String>)
    ensures
        match r {
            Ok(v) => is_safe_id(value@) && v@ == value@,
            Err(e) => !is_safe_id(value@) && e@ == "Invalid workspace entity ID"@,
        },
{
    let cs = to_chars(value);
    let mut i: usize = 0;
    let mut bad = cs.len() == 0;
    while i < cs.len()
        invariant
            i <= cs.len(),
            cs@ == value@,
            bad == (cs@.len() == 0 || exists|j: int| 0 <= j < i && (cs@[j] == '/' || cs@[j] == '\\')),
        decreases cs.len() - i,
    {
        if cs[i] == '/' || cs[i] == '\\' {
            bad = true;
        }
        i += 1;
    }
    proof {
        if !value@.contains('/') && !value@.contains('\\') {
            assert forall|j: int| 0 <= j < i implies !(cs@[j] == '/' || cs@[j] == '\\') by {
                if cs@[j] == '/' {
                    assert(value@.contains('/'));
                }
                if cs@[j] == '\\' {
                    assert(value@.contains('\\'));
                }
            }
        }
    }
    let dot = chars_eq_str(cs.as_slice(), ".");
    let dots = chars_eq_str(cs.as_slice(), "..");
    proof {
        reveal_strlit(".");
        reveal_strlit("..");
        assert("."@ == seq!['.']);
        assert(".."@ == seq!['.', '.']);
    }
    if bad || dot || dots {
        return Err(owned("Invalid workspace entity ID"));
    }
    Ok(value)
}

} // verus!
