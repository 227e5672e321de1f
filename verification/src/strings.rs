//! What the library uses of std's `String` beyond what vstd specifies.

use vstd::prelude::*;

verus! {

/// `String::push` from std: the string afterwards is the string before with
/// `ch` as one more character at its end.
pub assume_specification[ String::push ](s: &mut String, ch: char)
    ensures
        final(s)@ == old(s)@.push(ch),
;

} // verus!
