//! A named value of the whole program, and the line that reports one.

use vstd::prelude::*;
use vstd::string::StringExecFns;
use crate::decimal::{decimal, unsigned_text};

verus! {

/// The value that the whole program shares; it is never assigned anew.
pub const VARIAVEL_GLOBAL: u8 = 1;

/// The line that reports the value of `name`.
pub open spec fn named_text(name: Seq<char>, value: Seq<char>) -> Seq<char> {
    name + " = "@ + value
}

/// Writes the line that reports the value of `name`, the value as already
/// written out.
pub fn named_line(name: &str, value: &str) -> (line: String)
    ensures
        line@ == named_text(name@, value@),
{
    let mut line = String::from_str(name);
    line.append(" = ");
    line.append(value);
    line
}

/// Writes the line that reports the shared value, read as `value`.
pub fn global_line(value: u8) -> (line: String)
    ensures
        line@ == named_text("VARIAVEL_GLOBAL"@, decimal(value as nat)),
{
    let value = unsigned_text(value as u64);
    named_line("VARIAVEL_GLOBAL", value.as_str())
}

} // verus!
