//! What this library takes on trust from the standard library, where `vstd`
//! has no specification of its own.

use vstd::prelude::*;

verus! {

/// `String::push` appends one character to the end of the string and leaves
/// the characters before it as they were.
pub assume_specification[ String::push ](s: &mut String, c: char)
    ensures
        final(s)@ == old(s)@.push(c),
;

} // verus!
