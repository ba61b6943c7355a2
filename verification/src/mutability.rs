//! A boolean takes one byte, before and after it is assigned anew.

use vstd::prelude::*;
use vstd::layout::layout_of_primitives;
use vstd::string::StringExecFns;
use crate::decimal::{decimal, unsigned_text};
use crate::lines::texts;

verus! {

/// `true` or `false`, written out.
pub open spec fn boolean_text(value: bool) -> Seq<char> {
    if value {
        "true"@
    } else {
        "false"@
    }
}

/// The name under which the mutable boolean is reported while it holds
/// `value`.
pub open spec fn variable_name_text(value: bool) -> Seq<char> {
    "booleana_variável ("@ + boolean_text(value) + ")"@
}

/// The line that reports the size of the boolean `name`.
pub open spec fn boolean_line_text(name: Seq<char>, size: nat) -> Seq<char> {
    "Tamanho "@ + name + " = "@ + decimal(size) + " byte"@
}

/// The three lines of the demonstration: the immutable boolean, then the
/// mutable one while it holds `true` and after it was set to `false`.
pub open spec fn mutability_texts() -> Seq<Seq<char>> {
    seq![
        boolean_line_text("booleana"@, 1),
        boolean_line_text(variable_name_text(true), 1),
        boolean_line_text(variable_name_text(false), 1),
    ]
}

/// The number of bytes that a `bool` takes, whichever value it holds.
#[allow(unused_variables)]
pub fn boolean_size(value: &bool) -> (size: usize)
    ensures
        size == 1,
{
    broadcast use layout_of_primitives;

    core::mem::size_of::<bool>()
}

/// `true` or `false`, written out.
pub fn boolean_word(value: bool) -> (word: &'static str)
    ensures
        word@ == boolean_text(value),
{
    if value {
        "true"
    } else {
        "false"
    }
}

/// Writes the name under which the mutable boolean is reported while it
/// holds `value`.
pub fn variable_name(value: bool) -> (name: String)
    ensures
        name@ == variable_name_text(value),
{
    let mut name = String::from_str("booleana_variável (");
    name.append(boolean_word(value));
    name.append(")");
    name
}

/// Writes the line that reports the size of the boolean `name`.
pub fn boolean_line(name: &str, size: usize) -> (line: String)
    ensures
        line@ == boolean_line_text(name@, size as nat),
{
    let mut line = String::from_str("Tamanho ");
    line.append(name);
    line.append(" = ");
    line.append(unsigned_text(size as u64).as_str());
    line.append(" byte");
    line
}

/// Reports an immutable boolean, then a mutable one before and after it is
/// assigned anew.
pub fn mutability() -> (lines: Vec<String>)
    ensures
        lines@.len() == 3,
        texts(lines@) == mutability_texts(),
{
    let mut lines: Vec<String> = Vec::new();
    let booleana = false;
    lines.push(boolean_line("booleana", boolean_size(&booleana)));

    let mut booleana_variavel = true;
    let name = variable_name(booleana_variavel);
    lines.push(boolean_line(name.as_str(), boolean_size(&booleana_variavel)));

    booleana_variavel = false;
    let name = variable_name(booleana_variavel);
    lines.push(boolean_line(name.as_str(), boolean_size(&booleana_variavel)));

    assert(texts(lines@) =~= mutability_texts());
    lines
}

} // verus!
