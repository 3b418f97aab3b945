//! Contracts for the few std functions used here that vstd does not specify.
use vstd::prelude::*;

verus! {

/// `String::push` appends one character at the end, as its documentation says.
pub assume_specification[ std::string::String::push ](s: &mut String, ch: char)
    ensures
        final(s)@ == old(s)@.push(ch),
;

/// `char::from_u32` gives the character with that code point, or `None`
/// for a surrogate or a value past `0x10FFFF`, as its documentation says.
pub assume_specification[ std::char::from_u32 ](i: u32) -> (r: Option<char>)
    ensures
        r == (if i <= 0xD7FF || (0xE000 <= i && i <= 0x10FFFF) {
            Some(i as char)
        } else {
            None::<char>
        }),
;

} // verus!
