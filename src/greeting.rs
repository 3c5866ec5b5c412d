use vstd::prelude::*;

verus! {

pub open spec fn greeting_text(name: Seq<char>) -> Seq<char> {
    "Hello, "@ + name + "! You've been greeted from Rust!"@
}

/// Greets the caller by name.
pub fn greet(name: &str) -> (r: String)
    ensures
        r@ == greeting_text(name@),
{
    let mut s = String::from_str("Hello, ");
    s.append(name);
    s.append("! You've been greeted from Rust!");
    s
}

} // verus!
