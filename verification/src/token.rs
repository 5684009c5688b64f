use vstd::prelude::*;
use vstd::string::StringExecFns;
use crate::literal::Literal;
use crate::token_type::TokenType;

verus! {

/// A lexical unit: its kind, the source text it was read from, the literal it
/// decodes to (string and number tokens only) and the line it stands on.
#[derive(Debug)]
pub struct Token {
    pub token_type: TokenType,
    pub lexeme: String,
    pub literal: Option<Literal>,
    pub line: u32,
}

impl Token {
    pub fn new(token_type: TokenType, lexeme: String, literal: Option<Literal>, line: u32) -> (token:
        Token)
        ensures
            token == (Token { token_type, lexeme, literal, line }),
    {
        Token { token_type, lexeme, literal, line }
    }

    /// The token as shown to a reader: the kind's name, a space, the lexeme.
    pub fn describe(&self) -> (text: String)
        ensures
            text@ == self.token_type.spelling() + " "@ + self.lexeme@,
    {
        let mut text = self.token_type.name();
        text.append(" ");
        text.append(self.lexeme.as_str());
        text
    }
}

impl Clone for Token {
    fn clone(&self) -> (copy: Self)
        ensures
            copy == *self,
    {
        let literal = match &self.literal {
            Some(value) => Some(value.clone()),
            None => None,
        };
        Token {
            token_type: self.token_type,
            lexeme: self.lexeme.clone(),
            literal,
            line: self.line,
        }
    }
}

} // verus!
