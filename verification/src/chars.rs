//! Characters and the one way in which this library grows a `String`.

use vstd::prelude::*;

verus! {

/// `String::push` of std: the string afterwards is the string before it with
/// `c` as its new last character. Nothing else about the call is assumed.
pub assume_specification[ String::push ](s: &mut String, c: char)
    ensures
        final(s)@ == old(s)@.push(c),
;

/// No character of `text` is a carriage return.
pub open spec fn carriage_return_free(text: Seq<char>) -> bool {
    forall|i: int| 0 <= i < text.len() ==> text[i] != '\r'
}

/// The number of line feeds in `text`.
pub open spec fn newline_count(text: Seq<char>) -> nat
    decreases text.len(),
{
    if text.len() == 0 {
        0
    } else if text.last() == '\n' {
        newline_count(text.drop_last()) + 1
    } else {
        newline_count(text.drop_last())
    }
}

} // verus!
