//! Tokens of the procedure language.

use vstd::prelude::*;

verus! {

/// The kinds of token.
#[allow(non_camel_case_types, clippy::upper_case_acronyms)]
#[derive(Debug, PartialEq, Eq, Hash, Clone, Copy, Structural)]
pub enum TokenType {
    UNDEFINED,
    NUMBER,
    VARIABLE,
    SEMICOLON,
    COMMA,
    SPACE,
    ASSIGN,
    PLUS,
    MINUS,
    AND,
    OR,
    NOT,
    GE,
    LE,
    GT,
    LT,
    NE,
    STAR,
    SLASH,
    LPAR,
    RPAR,
    PARAMETER,
    PROPERTY,
    RETURN,
    OUTPUT,
    OPERATOR,
    KEYWORD,
    IF,
    ELSE,
    ELSEIF,
    ENDIF,
    THEN,
    STRING,
}

impl Default for TokenType {
    fn default() -> (r: Self)
        ensures
            r == TokenType::UNDEFINED,
    {
        TokenType::UNDEFINED
    }
}

/// A token: its kind, its text and its byte offset in the prepared code.
#[derive(Debug)]
pub struct Token {
    pub token_type: TokenType,
    pub text: String,
    pub pos: usize,
}

impl Clone for Token {
    fn clone(&self) -> (r: Self)
        ensures
            r == *self,
    {
        Token { token_type: self.token_type, text: self.text.clone(), pos: self.pos }
    }
}

impl Default for Token {
    fn default() -> (r: Self)
        ensures
            r.token_type == TokenType::UNDEFINED,
            r.text@ == Seq::<char>::empty(),
            r.pos == 0,
    {
        Token { token_type: TokenType::UNDEFINED, text: String::new(), pos: 0 }
    }
}

} // verus!
