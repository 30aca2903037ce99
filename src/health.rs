//! The health check that a frontend calls to see that the backend answers.
use vstd::prelude::*;

verus! {

/// The reply of the health check.
pub open spec fn pong() -> Seq<char> {
    "pong"@
}

/// Answers the health check. The reply is always the same literal, whatever
/// came before: the call reads and changes no state.
pub fn ping() -> (r: &'static str)
    ensures
        r@ == pong(),
{
    "pong"
}

} // verus!
