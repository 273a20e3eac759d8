//! One round of the quiz: a square is shown, an answer is read, and the
//! answer is judged against the colour of the square.

use vstd::prelude::*;
use crate::answer::{parse_answer, parsed, Answer, ParsedAnswer};
use crate::color::FieldColor;
use crate::coordinate::{calculate_field_color, field_color, is_field};

verus! {

/// How a round ends.
#[derive(Clone, Debug, PartialEq, Eq)]
pub enum Verdict {
    /// The answer names the colour of the square.
    Correct,
    /// The answer names the other colour.
    Incorrect,
    /// The answer names no colour; it is kept as it was written.
    Unrecognized(String),
}

/// A `Verdict` with its text as a sequence of characters.
pub ghost enum Outcome {
    Correct,
    Incorrect,
    Unrecognized(Seq<char>),
}

impl View for Verdict {
    type V = Outcome;

    open spec fn view(&self) -> Outcome {
        match self {
            Verdict::Correct => Outcome::Correct,
            Verdict::Incorrect => Outcome::Incorrect,
            Verdict::Unrecognized(text) => Outcome::Unrecognized(text@),
        }
    }
}

/// How the round on the square `field` ends with the answer `raw`. An answer
/// that names no colour is not held against the square at all.
pub open spec fn judged(field: Seq<char>, raw: Seq<char>) -> Outcome {
    match parsed(raw) {
        Answer::Unrecognized(text) => Outcome::Unrecognized(text),
        Answer::Color(color) => if color == field_color(field) {
            Outcome::Correct
        } else {
            Outcome::Incorrect
        },
    }
}

/// The line that asks for the colour of `field`.
pub open spec fn prompt_text(field: Seq<char>) -> Seq<char> {
    field + ": light or dark?"@
}

/// The line that reports `outcome`.
pub open spec fn outcome_text(outcome: Outcome) -> Seq<char> {
    match outcome {
        Outcome::Correct => "Correct! ✅"@,
        Outcome::Incorrect => "Incorrect! ❌"@,
        Outcome::Unrecognized(text) => "unrecognized option: "@ + text,
    }
}

/// Judges the answer `raw` to the question for the colour of `field`.
pub fn judge_answer(field: String, raw: String) -> (verdict: Verdict)
    requires
        is_field(field@),
    ensures
        verdict@ == judged(field@, raw@),
{
    match parse_answer(raw) {
        ParsedAnswer::Unrecognized(text) => Verdict::Unrecognized(text),
        ParsedAnswer::Color(color) => {
            if calculate_field_color(field) == color {
                Verdict::Correct
            } else {
                Verdict::Incorrect
            }
        },
    }
}

/// The line that asks for the colour of `field`.
pub fn prompt_line(field: &str) -> (line: String)
    ensures
        line@ == prompt_text(field@),
{
    let mut line = field.to_owned();
    line.append(": light or dark?");
    line
}

/// The line that reports `verdict`.
pub fn verdict_line(verdict: &Verdict) -> (line: String)
    ensures
        line@ == outcome_text(verdict@),
{
    match verdict {
        Verdict::Correct => "Correct! ✅".to_owned(),
        Verdict::Incorrect => "Incorrect! ❌".to_owned(),
        Verdict::Unrecognized(text) => {
            let mut line = "unrecognized option: ".to_owned();
            line.append(text.as_str());
            line
        },
    }
}

} // verus!
