//! Math spans: the delimiters wrapped around a piece of markup so
//! that the typesetter recognises it, chosen from the span's class.

use vstd::prelude::*;

use crate::text::str_eq;

verus! {

/// The delimiters for a math span's class: display math is wrapped
/// in `$$`, inline math in `\(` and `\)`, and anything else is left
/// bare.
pub fn math_delimiters(class: &str) -> (delimiters: (&'static str, &'static str))
    ensures
        class@ == "math math-display"@ ==> delimiters.0@ == "$$"@ && delimiters.1@ == "$$"@,
        class@ == "math math-inline"@ ==> delimiters.0@ == "\\("@ && delimiters.1@ == "\\)"@,
        class@ != "math math-display"@ && class@ != "math math-inline"@ ==> delimiters.0@ == ""@
            && delimiters.1@ == ""@,
{
    proof {
        reveal_strlit("math math-display");
        reveal_strlit("math math-inline");
        assert("math math-display"@.len() == 17);
        assert("math math-inline"@.len() == 16);
    }
    if str_eq(class, "math math-display") {
        ("$$", "$$")
    } else if str_eq(class, "math math-inline") {
        ("\\(", "\\)")
    } else {
        ("", "")
    }
}

} // verus!
