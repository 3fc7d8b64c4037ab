//! The remote-control payload the command-line frontend sends: with no
//! argument it opens the main player, with any argument the selector.

use vstd::prelude::*;

verus! {

/// The payload for an invocation with `arg_count` arguments, the program
/// name included.
pub fn cli_payload(arg_count: usize) -> (r: String)
    ensures
        arg_count == 1 ==> r@ == "ui"@,
        arg_count != 1 ==> r@ == "select"@,
{
    if arg_count == 1 {
        String::from_str("ui")
    } else {
        String::from_str("select")
    }
}

} // verus!
