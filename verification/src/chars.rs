//! Character classes and case folding.
//!
//! The registration policy classifies by the Unicode character properties,
//! exactly as `char`'s own predicates judge them; those live behind trusted
//! wrappers with named results. The password generator, whose alphabet is
//! fixed ASCII, additionally uses the plain ASCII ranges below.

use vstd::prelude::*;

verus! {

/// An ASCII lowercase letter, `a` through `z`.
pub open spec fn spec_is_lowercase(c: char) -> bool {
    97 <= c as int <= 122
}

/// An ASCII uppercase letter, `A` through `Z`.
pub open spec fn spec_is_uppercase(c: char) -> bool {
    65 <= c as int <= 90
}

/// An ASCII digit, `0` through `9`.
pub open spec fn spec_is_digit(c: char) -> bool {
    48 <= c as int <= 57
}

/// An ASCII letter of either case.
pub open spec fn spec_is_ascii_letter(c: char) -> bool {
    spec_is_lowercase(c) || spec_is_uppercase(c)
}

/// Runtime test for `spec_is_ascii_letter`.
pub fn is_ascii_letter_char(c: char) -> (r: bool)
    ensures
        r == spec_is_ascii_letter(c),
{
    ('a' <= c && c <= 'z') || ('A' <= c && c <= 'Z')
}

/// Whether the character has the Unicode `Lowercase` property.
pub uninterp spec fn unicode_lowercase(c: char) -> bool;

/// Whether the character has the Unicode `Uppercase` property.
pub uninterp spec fn unicode_uppercase(c: char) -> bool;

/// Whether the character is Unicode alphanumeric: a letter or a numeric
/// character.
pub uninterp spec fn unicode_alphanumeric(c: char) -> bool;

/// The first character of the character's Unicode lowercase mapping — the
/// character itself where the mapping does not change it.
pub uninterp spec fn unicode_fold_lower(c: char) -> char;

/// Relies on char::is_lowercase: the Unicode `Lowercase` property, a
/// function of the character alone.
#[verifier::external_body]
pub(crate) fn char_is_lowercase(c: char) -> (r: bool)
    ensures
        r == unicode_lowercase(c),
{
    c.is_lowercase()
}

/// Relies on char::is_uppercase: the Unicode `Uppercase` property, a
/// function of the character alone; no character is both `Lowercase` and
/// `Uppercase`.
#[verifier::external_body]
pub(crate) fn char_is_uppercase(c: char) -> (r: bool)
    ensures
        r == unicode_uppercase(c),
        unicode_lowercase(c) ==> !r,
{
    c.is_uppercase()
}

/// Relies on char::is_alphanumeric: a Unicode letter or numeric character, a
/// function of the character alone; every `Lowercase` or `Uppercase`
/// character is a letter and hence alphanumeric.
#[verifier::external_body]
pub(crate) fn char_is_alphanumeric(c: char) -> (r: bool)
    ensures
        r == unicode_alphanumeric(c),
        unicode_lowercase(c) ==> r,
        unicode_uppercase(c) ==> r,
{
    c.is_alphanumeric()
}

/// Relies on char::to_lowercase: the first character of the Unicode
/// lowercase mapping, or the character itself where there is none, a
/// function of the character alone. On ASCII it is plain: a lowercase
/// letter stays itself, an uppercase letter moves down by one case, a digit
/// stays itself.
#[verifier::external_body]
pub(crate) fn fold_lower(c: char) -> (r: char)
    ensures
        r == unicode_fold_lower(c),
        spec_is_lowercase(c) ==> r == c,
        spec_is_digit(c) ==> r == c,
        spec_is_uppercase(c) ==> r as int == c as int + 32,
{
    c.to_lowercase().next().unwrap_or(c)
}

} // verus!
