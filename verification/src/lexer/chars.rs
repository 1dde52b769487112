//! The character classes of Unicode that the scanner tells apart.
//!
//! Which characters are letters and which are numerals is decided by the
//! tables of the standard library. Nothing in this crate looks into them:
//! the two answers have a name each, and the scanner is stated over those
//! names.

use vstd::prelude::*;

verus! {

/// Whether `c` has the Unicode property `Alphabetic`.
pub uninterp spec fn char_is_alphabetic(c: char) -> bool;

/// Whether `c` is in one of the Unicode categories for numbers: `Nd`
/// (decimal digits), `Nl` (numerals that look like letters) or `No` (other
/// numeric characters).
pub uninterp spec fn char_is_numeric(c: char) -> bool;

/// `char::is_alphabetic` of the standard library. Its answer depends on the
/// character alone; what is taken on trust is that this answer is the one
/// named `char_is_alphabetic`, and that the call returns.
pub assume_specification[ char::is_alphabetic ](c: char) -> (b: bool)
    ensures
        b == char_is_alphabetic(c),
;

/// `char::is_numeric` of the standard library. Its answer depends on the
/// character alone; what is taken on trust is that this answer is the one
/// named `char_is_numeric`, and that the call returns.
pub assume_specification[ char::is_numeric ](c: char) -> (b: bool)
    ensures
        b == char_is_numeric(c),
;

} // verus!
