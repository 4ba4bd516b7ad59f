//! The mathematical model of scanning: what the tokens and errors of a
//! source text are, as functions of its characters alone.

use vstd::prelude::*;

use crate::diagnostics::DiagnosticView;
use crate::token::{LiteralView, TokenType, TokenView};

verus! {

pub open spec fn is_digit(c: char) -> bool {
    '0' <= c && c <= '9'
}

pub open spec fn is_alpha(c: char) -> bool {
    ('a' <= c && c <= 'z') || ('A' <= c && c <= 'Z') || c == '_'
}

pub open spec fn is_alphanumeric(c: char) -> bool {
    is_alpha(c) || is_digit(c)
}

/// Space, tab, carriage return and newline separate tokens and yield none.
pub open spec fn is_blank(c: char) -> bool {
    c == ' ' || c == '\r' || c == '\t' || c == '\n'
}

/// The number of newline characters in `s`.
pub open spec fn newlines(s: Seq<char>) -> nat
    decreases s.len(),
{
    if s.len() == 0 {
        0
    } else {
        newlines(s.drop_last()) + if s.last() == '\n' {
            1nat
        } else {
            0nat
        }
    }
}

/// The 1-based line of position `pos`: one more than the number of newlines
/// strictly before it.
pub open spec fn line_at(src: Seq<char>, pos: int) -> nat {
    1 + newlines(src.take(pos))
}

/// Whether the character at `pos` exists and is `c`.
pub open spec fn follows(src: Seq<char>, pos: int, c: char) -> bool {
    0 <= pos < src.len() && src[pos] == c
}

/// The kinds of character run that a lexeme can extend over.
pub enum Run {
    /// Decimal digits.
    Digits,
    /// Letters, digits and underscores.
    Word,
    /// Anything up to the end of the line.
    Comment,
    /// Anything up to the next double quote.
    Quoted,
}

impl Run {
    /// Whether a run of this kind goes on over `c`.
    pub open spec fn admits(self, c: char) -> bool {
        match self {
            Run::Digits => is_digit(c),
            Run::Word => is_alphanumeric(c),
            Run::Comment => c != '\n',
            Run::Quoted => c != '"',
        }
    }
}

/// Where the longest run of kind `run` that starts at `pos` ends: the first
/// position from `pos` on that the run does not admit, or the end of `src`.
pub open spec fn run_end(src: Seq<char>, pos: int, run: Run) -> int
    decreases src.len() - pos,
{
    if 0 <= pos < src.len() && run.admits(src[pos]) {
        run_end(src, pos + 1, run)
    } else {
        pos
    }
}

/// The category of a single-character punctuation mark.
pub open spec fn punctuation(c: char) -> Option<TokenType> {
    if c == '(' {
        Some(TokenType::LeftParen)
    } else if c == ')' {
        Some(TokenType::RightParen)
    } else if c == '{' {
        Some(TokenType::LeftBrace)
    } else if c == '}' {
        Some(TokenType::RightBrace)
    } else if c == ',' {
        Some(TokenType::Comma)
    } else if c == '.' {
        Some(TokenType::Dot)
    } else if c == '-' {
        Some(TokenType::Minus)
    } else if c == '+' {
        Some(TokenType::Plus)
    } else if c == ';' {
        Some(TokenType::Semicolon)
    } else if c == '*' {
        Some(TokenType::Star)
    } else if c == '/' {
        Some(TokenType::Slash)
    } else {
        None
    }
}

/// For a character that starts a one- or two-character operator: its
/// category alone, and its category when an `=` follows it.
pub open spec fn operator(c: char) -> Option<(TokenType, TokenType)> {
    if c == '!' {
        Some((TokenType::Bang, TokenType::BangEqual))
    } else if c == '=' {
        Some((TokenType::Equal, TokenType::EqualEqual))
    } else if c == '<' {
        Some((TokenType::Less, TokenType::LessEqual))
    } else if c == '>' {
        Some((TokenType::Greater, TokenType::GreaterEqual))
    } else {
        None
    }
}

/// The reserved word that `text` spells, if it spells one.
pub open spec fn keyword(text: Seq<char>) -> Option<TokenType> {
    if text == "and"@ {
        Some(TokenType::And)
    } else if text == "class"@ {
        Some(TokenType::Class)
    } else if text == "else"@ {
        Some(TokenType::Else)
    } else if text == "false"@ {
        Some(TokenType::False)
    } else if text == "for"@ {
        Some(TokenType::For)
    } else if text == "fun"@ {
        Some(TokenType::Fun)
    } else if text == "if"@ {
        Some(TokenType::If)
    } else if text == "nil"@ {
        Some(TokenType::Nil)
    } else if text == "or"@ {
        Some(TokenType::Or)
    } else if text == "print"@ {
        Some(TokenType::Print)
    } else if text == "return"@ {
        Some(TokenType::Return)
    } else if text == "super"@ {
        Some(TokenType::Super)
    } else if text == "this"@ {
        Some(TokenType::This)
    } else if text == "true"@ {
        Some(TokenType::True)
    } else if text == "var"@ {
        Some(TokenType::Var)
    } else if text == "while"@ {
        Some(TokenType::While)
    } else {
        None
    }
}

/// How a reserved word is written; empty for every other category.
pub open spec fn keyword_spelling(k: TokenType) -> Seq<char> {
    match k {
        TokenType::And => "and"@,
        TokenType::Class => "class"@,
        TokenType::Else => "else"@,
        TokenType::False => "false"@,
        TokenType::For => "for"@,
        TokenType::Fun => "fun"@,
        TokenType::If => "if"@,
        TokenType::Nil => "nil"@,
        TokenType::Or => "or"@,
        TokenType::Print => "print"@,
        TokenType::Return => "return"@,
        TokenType::Super => "super"@,
        TokenType::This => "this"@,
        TokenType::True => "true"@,
        TokenType::Var => "var"@,
        TokenType::While => "while"@,
        _ => Seq::empty(),
    }
}

/// The category of a word: its keyword, or `Identifier`.
pub open spec fn word_type(text: Seq<char>) -> TokenType {
    match keyword(text) {
        Some(k) => k,
        None => TokenType::Identifier,
    }
}

/// Where the numeral that starts at `pos` ends: after its digits, and after
/// a point and further digits if a digit follows the point.
pub open spec fn number_end(src: Seq<char>, pos: int) -> int {
    let whole = run_end(src, pos, Run::Digits);
    if follows(src, whole, '.') && whole + 1 < src.len() && is_digit(src[whole + 1]) {
        run_end(src, whole + 1, Run::Digits)
    } else {
        whole
    }
}

pub open spec fn unexpected_character_message() -> Seq<char> {
    "Unexpected character."@
}

pub open spec fn unterminated_string_message() -> Seq<char> {
    "Unterminated string."@
}

/// A token without payload over `src[from..to]`.
pub open spec fn plain_token(tt: TokenType, src: Seq<char>, from: int, to: int) -> TokenView {
    TokenView {
        token_type: tt,
        lexeme: src.subrange(from, to),
        literal: None,
        line: line_at(src, from),
    }
}

/// The end-of-input token of `src`.
pub open spec fn eof_token(src: Seq<char>) -> TokenView {
    TokenView {
        token_type: TokenType::Eof,
        lexeme: Seq::empty(),
        literal: None,
        line: line_at(src, src.len() as int),
    }
}

/// A lexical error at `line`.
pub open spec fn lexical_error(line: nat, message: Seq<char>) -> DiagnosticView {
    DiagnosticView { line, location: Seq::empty(), message }
}

/// What one scanning step yields: where the next step starts, and the
/// token or the error of this one, if any.
pub struct Step {
    pub end: int,
    pub tokens: Seq<TokenView>,
    pub errors: Seq<DiagnosticView>,
}

impl Step {
    pub open spec fn skip(end: int) -> Step {
        Step { end, tokens: Seq::empty(), errors: Seq::empty() }
    }

    pub open spec fn token(end: int, t: TokenView) -> Step {
        Step { end, tokens: seq![t], errors: Seq::empty() }
    }

    pub open spec fn error(end: int, e: DiagnosticView) -> Step {
        Step { end, tokens: Seq::empty(), errors: seq![e] }
    }
}

/// The scanning step that starts at `pos`.
#[verifier::opaque]
pub open spec fn step(src: Seq<char>, pos: int) -> Step
    recommends
        0 <= pos < src.len(),
{
    let c = src[pos];
    if c == '/' && follows(src, pos + 1, '/') {
        Step::skip(run_end(src, pos + 2, Run::Comment))
    } else if punctuation(c) is Some {
        Step::token(pos + 1, plain_token(punctuation(c).unwrap(), src, pos, pos + 1))
    } else if operator(c) is Some {
        if follows(src, pos + 1, '=') {
            Step::token(pos + 2, plain_token(operator(c).unwrap().1, src, pos, pos + 2))
        } else {
            Step::token(pos + 1, plain_token(operator(c).unwrap().0, src, pos, pos + 1))
        }
    } else if is_blank(c) {
        Step::skip(pos + 1)
    } else if c == '"' {
        let close = run_end(src, pos + 1, Run::Quoted);
        if close >= src.len() {
            Step::error(
                src.len() as int,
                lexical_error(line_at(src, src.len() as int), unterminated_string_message()),
            )
        } else {
            Step::token(
                close + 1,
                TokenView {
                    token_type: TokenType::Str,
                    lexeme: src.subrange(pos, close + 1),
                    literal: Some(LiteralView::Str(src.subrange(pos + 1, close))),
                    line: line_at(src, pos),
                },
            )
        }
    } else if is_digit(c) {
        let end = number_end(src, pos);
        Step::token(
            end,
            TokenView {
                token_type: TokenType::Number,
                lexeme: src.subrange(pos, end),
                literal: Some(LiteralView::Number(src.subrange(pos, end))),
                line: line_at(src, pos),
            },
        )
    } else if is_alpha(c) {
        let end = run_end(src, pos, Run::Word);
        Step::token(end, plain_token(word_type(src.subrange(pos, end)), src, pos, end))
    } else {
        Step::error(pos + 1, lexical_error(line_at(src, pos), unexpected_character_message()))
    }
}

/// The tokens and errors of a stretch of source text, each in source order.
pub struct Scanned {
    pub tokens: Seq<TokenView>,
    pub errors: Seq<DiagnosticView>,
}

/// A run ends no earlier than it starts and no later than the text.
pub proof fn lemma_run_end_bounds(src: Seq<char>, pos: int, run: Run)
    requires
        0 <= pos <= src.len(),
    ensures
        pos <= run_end(src, pos, run) <= src.len(),
    decreases src.len() - pos,
{
    if pos < src.len() && run.admits(src[pos]) {
        lemma_run_end_bounds(src, pos + 1, run);
    }
}

/// Passing one character adds a line exactly when it is a newline.
pub proof fn lemma_line_step(src: Seq<char>, pos: int)
    requires
        0 <= pos < src.len(),
    ensures
        line_at(src, pos + 1) == line_at(src, pos) + if src[pos] == '\n' {
            1nat
        } else {
            0nat
        },
{
    assert(src.take(pos + 1).drop_last() =~= src.take(pos));
}

/// A position's line is at most one more than the position.
pub proof fn lemma_line_bound(src: Seq<char>, pos: int)
    requires
        0 <= pos <= src.len(),
    ensures
        1 <= line_at(src, pos) <= pos + 1,
    decreases pos,
{
    if pos > 0 {
        lemma_line_bound(src, pos - 1);
        lemma_line_step(src, pos - 1);
    } else {
        assert(src.take(0).len() == 0);
    }
}

/// Every step moves forward and stays inside the text.
pub proof fn lemma_step_advances(src: Seq<char>, pos: int)
    requires
        0 <= pos < src.len(),
    ensures
        pos < step(src, pos).end <= src.len(),
{
    reveal(step);
    let c = src[pos];
    if c == '/' && follows(src, pos + 1, '/') {
        lemma_run_end_bounds(src, pos + 2, Run::Comment);
    }
    lemma_run_end_bounds(src, pos + 1, Run::Quoted);
    lemma_run_end_bounds(src, pos + 1, Run::Digits);
    let whole = run_end(src, pos, Run::Digits);
    if 0 <= whole && whole + 1 < src.len() {
        lemma_run_end_bounds(src, whole + 1, Run::Digits);
    }
    lemma_run_end_bounds(src, pos + 1, Run::Word);
}

/// What scanning yields from `pos` to the end of `src`, step after step.
pub open spec fn scan_from(src: Seq<char>, pos: int) -> Scanned
    decreases src.len() - pos,
{
    if 0 <= pos < src.len() {
        let first = step(src, pos);
        proof {
            lemma_step_advances(src, pos);
        }
        let rest = scan_from(src, first.end);
        Scanned { tokens: first.tokens + rest.tokens, errors: first.errors + rest.errors }
    } else {
        Scanned { tokens: Seq::empty(), errors: Seq::empty() }
    }
}

/// Where each token of `scan_from(src, pos)` starts in `src`, in order.
pub open spec fn starts_from(src: Seq<char>, pos: int) -> Seq<int>
    decreases src.len() - pos,
{
    if 0 <= pos < src.len() {
        let first = step(src, pos);
        proof {
            lemma_step_advances(src, pos);
        }
        let rest = starts_from(src, first.end);
        if first.tokens.len() > 0 {
            seq![pos] + rest
        } else {
            rest
        }
    } else {
        Seq::empty()
    }
}

/// What scanning yields for the whole of `src`: its tokens, closed by the
/// one end-of-input token, and its errors.
pub open spec fn scan(src: Seq<char>) -> Scanned {
    let body = scan_from(src, 0);
    Scanned { tokens: body.tokens.push(eof_token(src)), errors: body.errors }
}

} // verus!
