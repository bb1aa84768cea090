//! Display width of characters: one column for most, two for wide East Asian
//! characters. The width table itself comes from the `unicode_width` crate;
//! the engine's contracts speak of it through the name [`char_width_of`].

use vstd::prelude::*;

verus! {

/// What the width lookup answers for one character: `None` for a control
/// character, otherwise how many terminal columns it occupies.
pub uninterp spec fn char_width_of(c: char) -> Option<usize>;

/// A character that occupies two terminal columns when printed. Characters
/// without a width, and zero-width characters, print into a single column.
pub open spec fn is_wide_char(c: char) -> bool {
    match char_width_of(c) {
        Some(w) => w > 1,
        None => false,
    }
}

/// Relies on `unicode_width::UnicodeWidthChar::width`: the column width of a
/// character, a function of the character alone.
#[verifier::external_body]
fn char_width(c: char) -> (r: Option<usize>)
    ensures
        r == char_width_of(c),
{
    unicode_width::UnicodeWidthChar::width(c)
}

/// Whether printing `c` takes two columns rather than one.
pub fn is_wide(c: char) -> (r: bool)
    ensures
        r == is_wide_char(c),
{
    match char_width(c) {
        Some(w) => w > 1,
        None => false,
    }
}

} // verus!
