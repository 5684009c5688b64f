use vstd::prelude::*;
use vstd::string::StringExecFns;
use crate::literal::Literal;
use crate::text::{decimal, to_decimal};
use crate::token::Token;
use crate::token_type::TokenType;

verus! {

/// What can end a phase early. `ReturnValue` is no error: it carries the value
/// of a `return` statement out to the call that it ends.
#[derive(Debug)]
pub enum LoxError {
    ScanError { line: u32, message: String },
    ParseError { token: Token, message: String },
    RuntimeError { token: Token, message: String },
    ResolverError { token: Token, message: String },
    SystemError { message: String },
    ReturnValue { value: Literal },
}

/// `[line N] Error WHERE: MESSAGE`
pub open spec fn located(line: u32, place: Seq<char>, message: Seq<char>) -> Seq<char> {
    "[line "@ + decimal(line as nat) + "] Error "@ + place + ": "@ + message
}

/// `MESSAGE`, and `[line N]` on a line of its own.
pub open spec fn trailed(line: u32, message: Seq<char>) -> Seq<char> {
    message + "\n[line "@ + decimal(line as nat) + "]"@
}

/// The diagnostic of a syntax error: at the end of input it says so, anywhere
/// else it quotes the token.
pub open spec fn syntax_line(token: Token, message: Seq<char>) -> Seq<char> {
    if token.token_type == TokenType::EOF {
        located(token.line, "at end"@, message)
    } else {
        located(token.line, "at '"@ + token.lexeme@ + "'"@, message)
    }
}

fn write_located(line: u32, place: &str, message: &str) -> (text: String)
    ensures
        text@ == located(line, place@, message@),
{
    let mut text = String::from_str("[line ");
    text.append(to_decimal(line as u64).as_str());
    text.append("] Error ");
    text.append(place);
    text.append(": ");
    text.append(message);
    text
}

fn write_trailed(line: u32, message: &str) -> (text: String)
    ensures
        text@ == trailed(line, message@),
{
    let mut text = String::from_str(message);
    text.append("\n[line ");
    text.append(to_decimal(line as u64).as_str());
    text.append("]");
    text
}

impl Clone for LoxError {
    fn clone(&self) -> (copy: Self)
        ensures
            copy == *self,
    {
        match self {
            LoxError::ScanError { line, message } => LoxError::ScanError {
                line: *line,
                message: message.clone(),
            },
            LoxError::ParseError { token, message } => LoxError::ParseError {
                token: token.clone(),
                message: message.clone(),
            },
            LoxError::RuntimeError { token, message } => LoxError::RuntimeError {
                token: token.clone(),
                message: message.clone(),
            },
            LoxError::ResolverError { token, message } => LoxError::ResolverError {
                token: token.clone(),
                message: message.clone(),
            },
            LoxError::SystemError { message } => LoxError::SystemError { message: message.clone() },
            LoxError::ReturnValue { value } => LoxError::ReturnValue { value: value.clone() },
        }
    }
}

impl LoxError {
    pub fn scan_error(line: u32, message: String) -> (error: LoxError)
        ensures
            error == (LoxError::ScanError { line, message }),
    {
        LoxError::ScanError { line, message }
    }

    pub fn parse_error(token: Token, message: String) -> (error: LoxError)
        ensures
            error == (LoxError::ParseError { token, message }),
    {
        LoxError::ParseError { token, message }
    }

    pub fn runtime_error(token: Token, message: String) -> (error: LoxError)
        ensures
            error == (LoxError::RuntimeError { token, message }),
    {
        LoxError::RuntimeError { token, message }
    }

    pub fn resolver_error(token: Token, message: String) -> (error: LoxError)
        ensures
            error == (LoxError::ResolverError { token, message }),
    {
        LoxError::ResolverError { token, message }
    }

    pub fn system_error(message: String) -> (error: LoxError)
        ensures
            error == (LoxError::SystemError { message }),
    {
        LoxError::SystemError { message }
    }

    pub fn return_value(value: Literal) -> (error: LoxError)
        ensures
            error == (LoxError::ReturnValue { value }),
    {
        LoxError::ReturnValue { value }
    }

    /// The line that the diagnostic stream gets for an error; a `return` that
    /// is on its way out has none.
    pub open spec fn diagnostic(&self) -> Option<Seq<char>> {
        match self {
            LoxError::ScanError { line, message } => Some(located(*line, ""@, message@)),
            LoxError::ParseError { token, message } => Some(syntax_line(*token, message@)),
            LoxError::RuntimeError { token, message } => Some(trailed(token.line, message@)),
            LoxError::ResolverError { token, message } => Some(trailed(token.line, message@)),
            LoxError::SystemError { message } => Some("System Error: "@ + message@),
            LoxError::ReturnValue { value } => None,
        }
    }

    /// Writes the diagnostic of an error.
    pub fn report(&self) -> (text: Option<String>)
        ensures
            match self.diagnostic() {
                Some(line) => text matches Some(written) && written@ == line,
                None => text is None,
            },
    {
        match self {
            LoxError::ScanError { line, message } => Some(
                write_located(*line, "", message.as_str()),
            ),
            LoxError::ParseError { token, message } => {
                if token.token_type == TokenType::EOF {
                    Some(write_located(token.line, "at end", message.as_str()))
                } else {
                    let mut place = String::from_str("at '");
                    place.append(token.lexeme.as_str());
                    place.append("'");
                    Some(write_located(token.line, place.as_str(), message.as_str()))
                }
            },
            LoxError::RuntimeError { token, message } => Some(
                write_trailed(token.line, message.as_str()),
            ),
            LoxError::ResolverError { token, message } => Some(
                write_trailed(token.line, message.as_str()),
            ),
            LoxError::SystemError { message } => {
                let mut text = String::from_str("System Error: ");
                text.append(message.as_str());
                Some(text)
            },
            LoxError::ReturnValue { value } => None,
        }
    }
}

} // verus!
