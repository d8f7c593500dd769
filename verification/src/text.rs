//! What this crate takes on trust about `String`, beyond what the verifier's
//! own library says of it.

use vstd::prelude::*;

verus! {

/// `String::push`: appends one character to the end of the string. Nothing is
/// proved here; the contract restates the method's documentation.
pub assume_specification[ String::push ](text: &mut String, ch: char)
    ensures
        final(text)@ == old(text)@.push(ch),
;

} // verus!
