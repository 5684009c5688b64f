use vstd::prelude::*;
use crate::error_reporter::LoxError;
use crate::token_type::TokenType;

verus! {

/// What the library asks of its host. The library computes on tokens, trees
/// and scopes; numbers as such, the clock and the output are the host's. After
/// each action the host calls again, with the event that answers it.
#[derive(Debug)]
pub enum Action {
    /// Nothing is asked: call again.
    Continue,
    /// Decode each number literal: the answer is `Event::Numbers`, with the
    /// bits of the double nearest to each, in the same order.
    Decode { lexemes: Vec<String> },
    /// Compute `left operator right` on doubles, the operator being `Plus`,
    /// `Minus`, `Star` or `Slash`: the answer is `Event::Number`.
    Arithmetic { operator: TokenType, left: u64, right: u64 },
    /// Write the double in decimal: the answer is `Event::Text`.
    Format { number: u64 },
    /// Read the time in microseconds since the Unix epoch, as a double: the
    /// answer is `Event::Number`, or `Event::Failure` with the reason.
    Clock,
    /// Write the text and a line break to the output.
    Print { text: String },
    /// Write each line to the diagnostic stream.
    Report { lines: Vec<String> },
    /// The program ended in this error. The evaluator says so; a run turns it
    /// into the line to report.
    Abort { error: LoxError },
    /// There is nothing left to run.
    Finish,
}

/// What the host answers.
#[derive(Debug)]
pub enum Event {
    /// The action is done; it has no result.
    Done,
    Number(u64),
    Numbers(Vec<u64>),
    Text(String),
    Failure(String),
}

} // verus!
