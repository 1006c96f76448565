//! The greeting body of the demonstration endpoint: a personalised line when
//! a name was given in the query, a guest line otherwise.

use vstd::prelude::*;

verus! {

/// The body text the greeting endpoint answers with.
pub fn greet_message(name: Option<&String>) -> (r: String)
    ensures
        name matches Some(n) ==> r@ == "Hello, "@ + n@ + "!"@,
        name is None ==> r@ == "Hello, Guest!"@,
{
    let mut s = String::from_str("Hello, ");
    match name {
        Some(n) => s.append(n.as_str()),
        None => s.append("Guest"),
    }
    s.append("!");
    proof {
        reveal_strlit("Hello, ");
        reveal_strlit("Guest");
        reveal_strlit("!");
        reveal_strlit("Hello, Guest!");
        if name is None {
            assert(s@ =~= "Hello, Guest!"@);
        }
    }
    s
}

} // verus!
