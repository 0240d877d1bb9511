//! What every report begins with.

use vstd::prelude::*;
use vstd::string::*;

verus! {

/// The first line of a report: the label of the execution context.
pub open spec fn environment_line(context: Seq<char>) -> Seq<char> {
    "ENVIRONMENT: "@ + context
}

/// The first line of a report: see [`environment_line`].
pub fn environment(context: &str) -> (line: String)
    ensures
        line@ == environment_line(context@),
{
    let mut line = "ENVIRONMENT: ".to_owned();
    line.append(context);
    line
}

} // verus!
