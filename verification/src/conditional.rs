//! Who may enter the club: a decision by age and by a guardian's
//! authorization, and the two lines that report it.

use vstd::prelude::*;
use vstd::string::StringExecFns;
use crate::lines::texts;

verus! {

/// The age of majority.
pub const MAJORITY_AGE: u8 = 18;

/// The least age at which a guardian's authorization opens the door.
pub const GUARDIAN_AGE: u8 = 16;

/// The outcome at the door.
#[derive(Clone, Copy, Debug, PartialEq, Eq, Structural)]
pub enum Entry {
    /// Of age: enters.
    Adult,
    /// Under age, old enough and authorized by a guardian: enters.
    Authorized,
    /// Anyone else: stays out.
    Refused,
}

/// Whether `age` is of age.
pub open spec fn of_age(age: u8) -> bool {
    age >= MAJORITY_AGE
}

/// The outcome for a person of `age`, with or without authorization.
pub open spec fn outcome(age: u8, authorized: bool) -> Entry {
    if of_age(age) {
        Entry::Adult
    } else if age >= GUARDIAN_AGE && authorized {
        Entry::Authorized
    } else {
        Entry::Refused
    }
}

/// The word for a person who is, or is not, of age.
pub open spec fn condition_text(majority: bool) -> Seq<char> {
    if majority {
        "adult"@
    } else {
        "minor"@
    }
}

/// The line that names the condition.
pub open spec fn condition_line_text(majority: bool) -> Seq<char> {
    "You are a(n) "@ + condition_text(majority) + "."@
}

/// The two lines for a person of `age`: the outcome, then the condition.
pub open spec fn club_texts(age: u8, authorized: bool) -> Seq<Seq<char>> {
    seq![outcome(age, authorized).message_text(), condition_line_text(of_age(age))]
}

impl Entry {
    /// What the door says for this outcome.
    pub open spec fn message_text(self) -> Seq<char> {
        match self {
            Entry::Adult => "You can enter the club."@,
            Entry::Authorized => "You can enter the club, since you are at least 16 and authorized by your legal guardian."@,
            Entry::Refused => "You can't enter the club."@,
        }
    }

    /// What the door says for this outcome.
    pub fn message(&self) -> (text: &'static str)
        ensures
            text@ == self.message_text(),
    {
        match self {
            Entry::Adult => "You can enter the club.",
            Entry::Authorized => "You can enter the club, since you are at least 16 and authorized by your legal guardian.",
            Entry::Refused => "You can't enter the club.",
        }
    }
}

/// Each outcome comes on exactly these inputs: `Adult` from the age of
/// majority on, `Authorized` below it from the guardian age on with an
/// authorization, `Refused` on all others.
pub proof fn lemma_outcome_cases(age: u8, authorized: bool)
    ensures
        outcome(age, authorized) == Entry::Adult <==> age >= 18,
        outcome(age, authorized) == Entry::Authorized <==> 16 <= age < 18 && authorized,
        outcome(age, authorized) == Entry::Refused <==> age < 16 || (age < 18 && !authorized),
{
}

/// Whether `age` is of age.
pub fn majority(age: u8) -> (majority: bool)
    ensures
        majority == of_age(age),
{
    age >= MAJORITY_AGE
}

/// Decides the outcome for a person of `age`.
pub fn entry(age: u8, authorized: bool) -> (entry: Entry)
    ensures
        entry == outcome(age, authorized),
{
    if majority(age) {
        Entry::Adult
    } else if age >= GUARDIAN_AGE && authorized {
        Entry::Authorized
    } else {
        Entry::Refused
    }
}

/// The word for a person who is, or is not, of age.
pub fn condition(majority: bool) -> (word: &'static str)
    ensures
        word@ == condition_text(majority),
{
    if majority {
        "adult"
    } else {
        "minor"
    }
}

/// Writes the line that names the condition.
pub fn condition_line(majority: bool) -> (line: String)
    ensures
        line@ == condition_line_text(majority),
{
    let mut line = String::from_str("You are a(n) ");
    line.append(condition(majority));
    line.append(".");
    line
}

/// The two lines for a person of `age`: the outcome at the door, then the
/// condition.
pub fn club(age: u8, authorized: bool) -> (lines: Vec<String>)
    ensures
        lines@.len() == 2,
        texts(lines@) == club_texts(age, authorized),
{
    let mut lines: Vec<String> = Vec::new();
    lines.push(String::from_str(entry(age, authorized).message()));
    lines.push(condition_line(majority(age)));
    assert(texts(lines@) =~= club_texts(age, authorized));
    lines
}

} // verus!
