//! A text that changes hands: once it is passed by value, the caller's
//! binding is gone and only the receiver holds it.

use vstd::prelude::*;
use vstd::string::StringExecFns;
use crate::lines::texts;

verus! {

/// Takes `string` for good and hands it on as the line to write. The
/// caller cannot use its own binding after the call.
pub fn steal(string: String) -> (line: String)
    ensures
        line == string,
{
    string
}

/// Makes a text and gives it away to `steal`: the one line of the
/// demonstration.
pub fn ownership() -> (lines: Vec<String>)
    ensures
        lines@.len() == 1,
        texts(lines@) == seq!["Vinicius"@],
{
    let _string = String::from_str("Vinicius");
    let mut lines: Vec<String> = Vec::new();
    lines.push(steal(_string));
    assert(texts(lines@) =~= seq!["Vinicius"@]);
    lines
}

} // verus!
