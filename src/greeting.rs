//! The greeting command shown by the desktop shell.
use vstd::prelude::*;

verus! {

/// The text placed before the name.
pub open spec fn greeting_prefix() -> Seq<char> {
    "Hello, "@
}

/// The text placed after the name.
pub open spec fn greeting_suffix() -> Seq<char> {
    "! You've been greeted from Rust!"@
}

/// The greeting for `name`: the prefix, the name, then the suffix.
pub open spec fn greeting_of(name: Seq<char>) -> Seq<char> {
    greeting_prefix() + name + greeting_suffix()
}

/// Greets `name`.
pub fn greet(name: &str) -> (r: String)
    ensures
        r@ == greeting_of(name@),
{
    let prefix = String::from_str("Hello, ");
    let with_name = prefix.concat(name);
    let r = with_name.concat("! You've been greeted from Rust!");
    proof {
        reveal_strlit("Hello, ");
        reveal_strlit("! You've been greeted from Rust!");
    }
    r
}

} // verus!
