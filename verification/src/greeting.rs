//! Greetings.
use vstd::prelude::*;
use vstd::string::*;

verus! {

/// The text that `greet` produces for a name.
pub open spec fn greeting_text(name: Seq<char>) -> Seq<char> {
    "Hello, "@ + name + "!"@
}

/// Return a greeting for the supplied name.
pub fn greet(name: &str) -> (res: String)
    ensures
        res@ == greeting_text(name@),
{
    let mut out = String::from_str("Hello, ");
    out.append(name);
    out.append("!");
    out
}

} // verus!
