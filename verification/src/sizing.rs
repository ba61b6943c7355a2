//! How many bytes a number takes, and the line that reports it.

use vstd::prelude::*;
use vstd::layout::layout_of_primitives;
use vstd::string::StringExecFns;
use crate::decimal::{decimal, signed_decimal, signed_text, unsigned_text};

verus! {

/// The integer of the demonstration.
pub const VARIAVEL: i32 = 300;

/// The line that reports the value and the size of the variable `name`.
pub open spec fn size_line_text(name: Seq<char>, value: Seq<char>, size: nat) -> Seq<char> {
    name + " = "@ + value + ", tamanho = "@ + decimal(size) + " bytes"@
}

/// The number of bytes that an `i32` takes, whatever it holds.
#[allow(unused_variables)]
pub fn integer_size(value: &i32) -> (size: usize)
    ensures
        size == 4,
{
    broadcast use layout_of_primitives;

    core::mem::size_of::<i32>()
}

/// Writes the line that reports a variable: its name, its value as already
/// written out, and its size in bytes.
pub fn size_line(name: &str, value: &str, size: usize) -> (line: String)
    ensures
        line@ == size_line_text(name@, value@, size as nat),
{
    let mut line = String::from_str(name);
    line.append(" = ");
    line.append(value);
    line.append(", tamanho = ");
    line.append(unsigned_text(size as u64).as_str());
    line.append(" bytes");
    line
}

/// Writes the line that reports the integer `variavel`.
pub fn integer_line(variavel: i32) -> (line: String)
    ensures
        line@ == size_line_text("Variavel"@, signed_decimal(variavel as int), 4),
{
    let value = signed_text(variavel as i64);
    size_line("Variavel", value.as_str(), integer_size(&variavel))
}

} // verus!
