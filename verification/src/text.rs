//! What this crate assumes of the text functions of the standard library.

use vstd::prelude::*;

verus! {

/// Assumed of `String::push`, and not proved: it appends the character to
/// the end of the string and leaves what was there.
pub assume_specification[ String::push ](s: &mut String, ch: char)
    ensures
        final(s)@ == old(s)@.push(ch),
;

} // verus!
