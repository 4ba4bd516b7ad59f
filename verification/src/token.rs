//! Tokens and their literal payloads.

use vstd::prelude::*;
use vstd::string::StringExecFns;

use crate::text::{debug_quoted, quote};
pub use crate::tokentype::TokenType;

verus! {

/// The payload of a literal token.
///
/// A number is kept as the decimal numeral that was scanned (digits,
/// optionally a point and more digits), so that its value stays exact here;
/// turning it into a machine float is left to the caller.
#[derive(Debug)]
pub enum Literal {
    Str(String),
    Number(String),
    Boolean(bool),
}

/// Mathematical model of a [`Literal`].
pub enum LiteralView {
    Str(Seq<char>),
    Number(Seq<char>),
    Boolean(bool),
}

impl View for Literal {
    type V = LiteralView;

    open spec fn view(&self) -> LiteralView {
        match self {
            Literal::Str(s) => LiteralView::Str(s@),
            Literal::Number(s) => LiteralView::Number(s@),
            Literal::Boolean(b) => LiteralView::Boolean(*b),
        }
    }
}

impl Clone for Literal {
    fn clone(&self) -> (copy: Self)
        ensures
            copy == *self,
    {
        match self {
            Literal::Str(s) => Literal::Str(s.clone()),
            Literal::Number(s) => Literal::Number(s.clone()),
            Literal::Boolean(b) => Literal::Boolean(*b),
        }
    }
}

/// Model of an optional literal.
pub open spec fn literal_view(literal: Option<Literal>) -> Option<LiteralView> {
    match literal {
        Some(l) => Some(l@),
        None => None,
    }
}

/// One lexical unit of the source text.
#[derive(Debug)]
pub struct Token {
    pub token_type: TokenType,
    /// The exact source text of the token.
    pub lexeme: String,
    pub literal: Option<Literal>,
    /// The 1-based line of the token's first character.
    pub line: usize,
}

/// Mathematical model of a [`Token`].
pub struct TokenView {
    pub token_type: TokenType,
    pub lexeme: Seq<char>,
    pub literal: Option<LiteralView>,
    pub line: nat,
}

impl View for Token {
    type V = TokenView;

    open spec fn view(&self) -> TokenView {
        TokenView {
            token_type: self.token_type,
            lexeme: self.lexeme@,
            literal: literal_view(self.literal),
            line: self.line as nat,
        }
    }
}

impl Clone for Token {
    fn clone(&self) -> (copy: Self)
        ensures
            copy == *self,
    {
        let literal = match &self.literal {
            Some(l) => Some(l.clone()),
            None => None,
        };
        Token {
            token_type: self.token_type,
            lexeme: self.lexeme.clone(),
            literal,
            line: self.line,
        }
    }
}

/// How a token is displayed: the name of its category, its lexeme, and
/// its lexeme again between quotes, with one space between them.
pub open spec fn token_text(t: TokenView) -> Seq<char> {
    t.token_type.name_text() + " "@ + t.lexeme + " "@ + debug_quoted(t.lexeme)
}

impl Token {
    /// The token of category `tt` with lexeme `lex` and payload `lit`, on
    /// line `ln`.
    pub fn new(tt: TokenType, lex: String, lit: Option<Literal>, ln: usize) -> (token: Token)
        ensures
            token == (Token { token_type: tt, lexeme: lex, literal: lit, line: ln }),
    {
        Token { token_type: tt, lexeme: lex, literal: lit, line: ln }
    }

    /// This token as a line of text.
    pub fn to_text(&self) -> (text: String)
        ensures
            text@ == token_text(self@),
    {
        let mut text = String::from_str(self.token_type.name());
        text.append(" ");
        text.append(self.lexeme.as_str());
        text.append(" ");
        text.append(quote(self.lexeme.as_str()).as_str());
        text
    }
}

/// The models of a sequence of tokens, in order.
pub open spec fn token_views(tokens: Seq<Token>) -> Seq<TokenView> {
    Seq::new(tokens.len(), |i: int| tokens[i]@)
}

/// Whether the payload of `t` is of the kind that its category calls for:
/// a number for a number token, a string for a string token.
pub open spec fn payload_fits(t: TokenView) -> bool {
    match t.token_type {
        TokenType::Number => t.literal matches Some(LiteralView::Number(_)),
        TokenType::Str => t.literal matches Some(LiteralView::Str(_)),
        _ => true,
    }
}

/// Whether every token of `tokens` has the payload of its category.
pub open spec fn payloads_fit(tokens: Seq<TokenView>) -> bool {
    forall|i: int| 0 <= i < tokens.len() ==> payload_fits(#[trigger] tokens[i])
}

/// A token sequence is terminated when it ends in the end-of-input token.
pub open spec fn terminated(tokens: Seq<TokenView>) -> bool {
    tokens.len() > 0 && tokens.last().token_type is Eof
}

/// An element-by-element copy of `tokens`.
pub fn copy_tokens(tokens: &Vec<Token>) -> (copy: Vec<Token>)
    ensures
        copy@ == tokens@,
{
    let mut copy: Vec<Token> = Vec::new();
    let mut i: usize = 0;
    while i < tokens.len()
        invariant
            i <= tokens.len(),
            copy@ == tokens@.take(i as int),
        decreases tokens.len() - i,
    {
        copy.push(tokens[i].clone());
        i += 1;
    }
    copy
}

} // verus!
