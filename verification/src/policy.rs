//! Registration-time password policy, independent of how a password was
//! produced: at least eight characters, and at least one lowercase letter,
//! one uppercase letter and one special — non-alphanumeric — character,
//! all judged by the Unicode character properties.

use crate::chars::char_is_alphanumeric;
use crate::chars::char_is_lowercase;
use crate::chars::char_is_uppercase;
use crate::chars::unicode_alphanumeric;
use crate::chars::unicode_lowercase;
use crate::chars::unicode_uppercase;
use crate::errors::PolicyError;
use vstd::prelude::*;

verus! {

/// A password the policy accepts: long enough, with at least one character
/// of each required class.
pub open spec fn spec_password_accepted(p: Seq<char>) -> bool {
    &&& p.len() >= 8
    &&& exists|i: int| 0 <= i < p.len() && unicode_lowercase(#[trigger] p[i])
    &&& exists|i: int| 0 <= i < p.len() && unicode_uppercase(#[trigger] p[i])
    &&& exists|i: int| 0 <= i < p.len() && !unicode_alphanumeric(#[trigger] p[i])
}

/// Judge a registration password: accepted exactly when the policy holds,
/// and each rejection names the first unmet rule — length before classes,
/// as the registration endpoint reports it.
pub fn validate_password(password: &str) -> (r: Result<(), PolicyError>)
    ensures
        r is Ok <==> spec_password_accepted(password@),
        r == Err::<(), PolicyError>(PolicyError::TooShort) <==> password@.len() < 8,
        r == Err::<(), PolicyError>(PolicyError::MissingCharacterClass) <==> (password@.len() >= 8
            && !spec_password_accepted(password@)),
{
    let n = password.unicode_len();
    if n < 8 {
        return Err(PolicyError::TooShort);
    }
    let mut has_lower = false;
    let mut has_upper = false;
    let mut has_special = false;
    let mut i: usize = 0;
    while i < n
        invariant
            n == password@.len(),
            i <= n,
            has_lower == exists|j: int| 0 <= j < i && unicode_lowercase(#[trigger] password@[j]),
            has_upper == exists|j: int| 0 <= j < i && unicode_uppercase(#[trigger] password@[j]),
            has_special == exists|j: int|
                0 <= j < i && !unicode_alphanumeric(#[trigger] password@[j]),
        ensures
            (has_lower && has_upper && has_special) || i == n,
        decreases n - i,
    {
        let c = password.get_char(i);
        let is_low = char_is_lowercase(c);
        let is_up = char_is_uppercase(c);
        let is_alnum = char_is_alphanumeric(c);
        if is_low {
            has_lower = true;
        } else if is_up {
            has_upper = true;
        } else if !is_alnum {
            has_special = true;
        }
        i = i + 1;
        if has_lower && has_upper && has_special {
            break;
        }
    }
    if has_lower && has_upper && has_special {
        Ok(())
    } else {
        Err(PolicyError::MissingCharacterClass)
    }
}

} // verus!
