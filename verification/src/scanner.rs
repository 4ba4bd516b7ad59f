//! The scanner: from source text to tokens.

use vstd::prelude::*;

use crate::diagnostics::{error, DiagnosticView, ErrorLog, ErrorLogView};
use crate::lexing::{
    eof_token, follows, is_alpha, is_alphanumeric, is_digit, keyword, lemma_line_bound,
    lemma_line_step, lemma_step_advances, line_at, number_end, plain_token, run_end, scan,
    scan_from, step, Run, Step,
};
use crate::scanned::lemma_scan_payloads_fit;
use crate::text::{chars_of, spells, text_of};
use crate::token::{
    copy_tokens, literal_view, payloads_fit, terminated, token_views, Literal, Token, TokenType,
    TokenView,
};

verus! {

/// The reserved word that `chars[from..to]` spells, if it spells one.
pub fn lookup_keyword(chars: &Vec<char>, from: usize, to: usize) -> (found: Option<TokenType>)
    requires
        from <= to <= chars.len(),
    ensures
        found == keyword(chars@.subrange(from as int, to as int)),
{
    if spells(chars, from, to, "and") {
        Some(TokenType::And)
    } else if spells(chars, from, to, "class") {
        Some(TokenType::Class)
    } else if spells(chars, from, to, "else") {
        Some(TokenType::Else)
    } else if spells(chars, from, to, "false") {
        Some(TokenType::False)
    } else if spells(chars, from, to, "for") {
        Some(TokenType::For)
    } else if spells(chars, from, to, "fun") {
        Some(TokenType::Fun)
    } else if spells(chars, from, to, "if") {
        Some(TokenType::If)
    } else if spells(chars, from, to, "nil") {
        Some(TokenType::Nil)
    } else if spells(chars, from, to, "or") {
        Some(TokenType::Or)
    } else if spells(chars, from, to, "print") {
        Some(TokenType::Print)
    } else if spells(chars, from, to, "return") {
        Some(TokenType::Return)
    } else if spells(chars, from, to, "super") {
        Some(TokenType::Super)
    } else if spells(chars, from, to, "this") {
        Some(TokenType::This)
    } else if spells(chars, from, to, "true") {
        Some(TokenType::True)
    } else if spells(chars, from, to, "var") {
        Some(TokenType::Var)
    } else if spells(chars, from, to, "while") {
        Some(TokenType::While)
    } else {
        None
    }
}

/// A single-use scanner over one source text.
pub struct Scanner {
    source: Vec<char>,
    tokens: Vec<Token>,
    /// First character of the lexeme being scanned.
    start: usize,
    /// Next character to examine.
    current: usize,
    /// Line of `current`.
    line: usize,
    log: ErrorLog,
}

impl Scanner {
    /// The source text.
    pub closed spec fn source(&self) -> Seq<char> {
        self.source@
    }

    /// The position of the next character to examine.
    pub closed spec fn cursor(&self) -> int {
        self.current as int
    }

    /// The tokens produced so far.
    pub closed spec fn emitted(&self) -> Seq<TokenView> {
        token_views(self.tokens@)
    }

    /// The errors reported so far.
    pub closed spec fn reported(&self) -> Seq<DiagnosticView> {
        self.log@.entries
    }

    spec fn bounded(&self) -> bool {
        self.start <= self.current <= self.source@.len() < usize::MAX
    }

    /// The cursors are in order and inside the text, and the line counter
    /// is the line of the cursor.
    pub closed spec fn wf(&self) -> bool {
        &&& self.bounded()
        &&& self.line == line_at(self.source@, self.current as int)
        &&& self.log@.had_error == (self.log@.entries.len() > 0)
    }

    /// Nothing has been scanned yet.
    pub closed spec fn is_fresh(&self) -> bool {
        &&& self.current == 0
        &&& self.tokens@.len() == 0
        &&& self.log@.entries.len() == 0
    }

    /// Only the cursor moved since `before`, and it moved forward.
    spec fn advanced_from(&self, before: &Scanner) -> bool {
        &&& self.source == before.source
        &&& self.tokens == before.tokens
        &&& self.start == before.start
        &&& self.line == before.line
        &&& self.log == before.log
        &&& before.current <= self.current
    }

    /// Since `before`, the scanner did what the step `s` says.
    spec fn yields(&self, before: &Scanner, s: Step) -> bool {
        &&& self.source == before.source
        &&& self.current == s.end
        &&& token_views(self.tokens@) == token_views(before.tokens@) + s.tokens
        &&& self.log@.entries == before.log@.entries + s.errors
        &&& self.wf()
    }

    /// A scanner at the start of `s`. The text must leave room to count
    /// its lines: it is shorter than the largest `usize`.
    pub fn new(s: String) -> (scanner: Scanner)
        requires
            s@.len() < usize::MAX,
        ensures
            scanner.wf(),
            scanner.is_fresh(),
            scanner.source() == s@,
            scanner.cursor() == 0,
            scanner.emitted() == Seq::<TokenView>::empty(),
            scanner.reported() == Seq::<DiagnosticView>::empty(),
    {
        let scanner = Scanner {
            source: chars_of(s.as_str()),
            tokens: Vec::new(),
            start: 0,
            current: 0,
            line: 1,
            log: ErrorLog::new(),
        };
        proof {
            assert(scanner.source@.take(0).len() == 0);
            assert(token_views(scanner.tokens@) =~= Seq::<TokenView>::empty());
        }
        scanner
    }

    /// Scans what is left of the source and returns every token produced,
    /// closed by the end-of-input token. Errors go to the scanner's log and
    /// do not stop the scan.
    pub fn scan_tokens(&mut self) -> (tokens: Vec<Token>)
        requires
            old(self).wf(),
        ensures
            final(self).wf(),
            final(self).source() == old(self).source(),
            final(self).cursor() == old(self).source().len(),
            final(self).emitted() == token_views(tokens@),
            terminated(token_views(tokens@)),
            token_views(tokens@) == old(self).emitted() + scan_from(
                old(self).source(),
                old(self).cursor(),
            ).tokens.push(eof_token(old(self).source())),
            final(self).reported() == old(self).reported() + scan_from(
                old(self).source(),
                old(self).cursor(),
            ).errors,
            old(self).is_fresh() ==> token_views(tokens@) == scan(old(self).source()).tokens
                && final(self).reported() == scan(old(self).source()).errors && payloads_fit(
                token_views(tokens@),
            ),
    {
        let ghost src = self.source@;
        let ghost goal = scan_from(src, self.current as int);
        while !self.is_at_end()
            invariant
                self.wf(),
                self.source@ == src,
                token_views(self.tokens@) + scan_from(src, self.current as int).tokens
                    == token_views(old(self).tokens@) + goal.tokens,
                self.log@.entries + scan_from(src, self.current as int).errors
                    == old(self).log@.entries + goal.errors,
            decreases src.len() - self.current,
        {
            let ghost before = *self;
            self.start = self.current;
            self.scan_token();
            proof {
                let s = step(src, before.current as int);
                let rest = scan_from(src, s.end);
                lemma_step_advances(src, before.current as int);
                assert((token_views(before.tokens@) + s.tokens) + rest.tokens =~= token_views(
                    before.tokens@,
                ) + (s.tokens + rest.tokens));
                assert((before.log@.entries + s.errors) + rest.errors =~= before.log@.entries
                    + (s.errors + rest.errors));
            }
        }
        let ghost body = self.tokens@;
        proof {
            lemma_line_bound(src, src.len() as int);
        }
        self.tokens.push(Token::new(TokenType::Eof, String::new(), None, self.line));
        proof {
            let rest = scan_from(src, self.current as int);
            assert(rest.tokens =~= Seq::<TokenView>::empty());
            assert(rest.errors =~= Seq::<DiagnosticView>::empty());
            assert(token_views(self.tokens@) =~= token_views(body).push(eof_token(src)));
            assert(token_views(body) =~= token_views(body) + rest.tokens);
            assert(self.log@.entries =~= self.log@.entries + rest.errors);
            assert(token_views(self.tokens@) =~= token_views(old(self).tokens@)
                + goal.tokens.push(eof_token(src)));
            if old(self).is_fresh() {
                assert(token_views(old(self).tokens@) =~= Seq::<TokenView>::empty());
                assert(token_views(self.tokens@) =~= scan(src).tokens);
                assert(self.log@.entries =~= scan(src).errors);
                lemma_scan_payloads_fit(src);
            }
        }
        copy_tokens(&self.tokens)
    }

    /// The errors reported so far, in order of arrival; the flag is up
    /// exactly when there are any.
    pub fn diagnostics(&self) -> (log: &ErrorLog)
        requires
            self.wf(),
        ensures
            log@ == (ErrorLogView {
                had_error: self.reported().len() > 0,
                entries: self.reported(),
            }),
    {
        &self.log
    }

    /// Gives up the scanner for its log.
    pub fn into_diagnostics(self) -> (log: ErrorLog)
        requires
            self.wf(),
        ensures
            log@ == (ErrorLogView {
                had_error: self.reported().len() > 0,
                entries: self.reported(),
            }),
    {
        self.log
    }

    fn is_at_end(&self) -> (at_end: bool)
        ensures
            at_end == (self.current >= self.source@.len()),
    {
        self.current >= self.source.len()
    }

    fn scan_token(&mut self)
        requires
            old(self).wf(),
            old(self).start == old(self).current,
            old(self).current < old(self).source@.len(),
        ensures
            final(self).yields(old(self), step(old(self).source@, old(self).current as int)),
    {
        let ghost src = self.source@;
        let ghost pos = self.current as int;
        proof {
            reveal(step);
            lemma_line_step(src, pos);
            lemma_line_bound(src, pos + 1);
        }
        let ch: char = self.advance();
        match ch {
            '(' => self.add_token(TokenType::LeftParen),
            ')' => self.add_token(TokenType::RightParen),
            '{' => self.add_token(TokenType::LeftBrace),
            '}' => self.add_token(TokenType::RightBrace),
            ',' => self.add_token(TokenType::Comma),
            '.' => self.add_token(TokenType::Dot),
            '-' => self.add_token(TokenType::Minus),
            '+' => self.add_token(TokenType::Plus),
            ';' => self.add_token(TokenType::Semicolon),
            '*' => self.add_token(TokenType::Star),
            '!' => {
                if self.match_next('=') {
                    proof {
                        lemma_line_step(src, pos + 1);
                    }
                    self.add_token(TokenType::BangEqual)
                } else {
                    self.add_token(TokenType::Bang)
                }
            },
            '=' => {
                if self.match_next('=') {
                    proof {
                        lemma_line_step(src, pos + 1);
                    }
                    self.add_token(TokenType::EqualEqual)
                } else {
                    self.add_token(TokenType::Equal)
                }
            },
            '<' => {
                if self.match_next('=') {
                    proof {
                        lemma_line_step(src, pos + 1);
                    }
                    self.add_token(TokenType::LessEqual)
                } else {
                    self.add_token(TokenType::Less)
                }
            },
            '>' => {
                if self.match_next('=') {
                    proof {
                        lemma_line_step(src, pos + 1);
                    }
                    self.add_token(TokenType::GreaterEqual)
                } else {
                    self.add_token(TokenType::Greater)
                }
            },
            '/' => {
                if self.match_next('/') {
                    proof {
                        lemma_line_step(src, pos + 1);
                    }
                    // the rest of the line is a comment
                    while self.peek() != '\n' && !self.is_at_end()
                        invariant
                            self.advanced_from(old(self)),
                            self.bounded(),
                            pos + 2 <= self.current,
                            self.line == line_at(src, self.current as int),
                            src == self.source@,
                            run_end(src, self.current as int, Run::Comment) == run_end(
                                src,
                                pos + 2,
                                Run::Comment,
                            ),
                        decreases src.len() - self.current,
                    {
                        proof {
                            lemma_line_step(src, self.current as int);
                        }
                        self.advance();
                    }
                    proof {
                        assert(token_views(self.tokens@) =~= token_views(old(self).tokens@)
                            + Seq::<TokenView>::empty());
                        assert(self.log@.entries =~= old(self).log@.entries + Seq::<
                            DiagnosticView,
                        >::empty());
                    }
                } else {
                    self.add_token(TokenType::Slash)
                }
            },
            ' ' | '\r' | '\t' => {
                proof {
                    assert(token_views(self.tokens@) =~= token_views(old(self).tokens@) + Seq::<
                        TokenView,
                    >::empty());
                    assert(self.log@.entries =~= old(self).log@.entries + Seq::<
                        DiagnosticView,
                    >::empty());
                }
            },
            '\n' => {
                self.line += 1;
                proof {
                    assert(token_views(self.tokens@) =~= token_views(old(self).tokens@) + Seq::<
                        TokenView,
                    >::empty());
                    assert(self.log@.entries =~= old(self).log@.entries + Seq::<
                        DiagnosticView,
                    >::empty());
                }
            },
            '"' => self.string(),
            _ => {
                if self.is_digit(ch) {
                    self.number();
                } else if self.is_alpha(ch) {
                    self.identifier();
                } else {
                    let ghost before = self.log@.entries;
                    error(&mut self.log, self.line, "Unexpected character.".to_string());
                    proof {
                        assert(token_views(self.tokens@) =~= token_views(old(self).tokens@)
                            + Seq::<TokenView>::empty());
                        assert(self.log@.entries =~= before + step(src, pos).errors);
                    }
                }
            },
        }
    }

    fn advance(&mut self) -> (ch: char)
        requires
            old(self).bounded(),
            old(self).current < old(self).source@.len(),
        ensures
            final(self).advanced_from(old(self)),
            final(self).bounded(),
            final(self).current == old(self).current + 1,
            ch == old(self).source@[old(self).current as int],
    {
        let ch = self.source[self.current];
        self.current += 1;
        ch
    }

    /// Adds a token without payload over the current lexeme, which holds no
    /// newline.
    fn add_token(&mut self, t: TokenType)
        requires
            old(self).wf(),
            old(self).line == line_at(old(self).source@, old(self).start as int),
        ensures
            final(self).yields(
                old(self),
                Step::token(
                    old(self).current as int,
                    plain_token(
                        t,
                        old(self).source@,
                        old(self).start as int,
                        old(self).current as int,
                    ),
                ),
            ),
    {
        self.add_token_literal(t, None, self.line);
    }

    /// Adds a token over the current lexeme.
    fn add_token_literal(&mut self, ty: TokenType, lit: Option<Literal>, line: usize)
        requires
            old(self).wf(),
        ensures
            final(self).yields(
                old(self),
                Step::token(
                    old(self).current as int,
                    TokenView {
                        token_type: ty,
                        lexeme: old(self).source@.subrange(
                            old(self).start as int,
                            old(self).current as int,
                        ),
                        literal: literal_view(lit),
                        line: line as nat,
                    },
                ),
            ),
    {
        let ghost before = self.tokens@;
        let text = text_of(&self.source, self.start, self.current);
        self.tokens.push(Token::new(ty, text, lit, line));
        proof {
            assert(token_views(self.tokens@) =~= token_views(before) + seq![self.tokens@.last()@]);
            assert(self.log@.entries =~= old(self).log@.entries + Seq::<DiagnosticView>::empty());
        }
    }

    /// Consumes the next character if it is `expect`.
    fn match_next(&mut self, expect: char) -> (matched: bool)
        requires
            old(self).bounded(),
        ensures
            matched == follows(old(self).source@, old(self).current as int, expect),
            final(self).advanced_from(old(self)),
            final(self).bounded(),
            final(self).current == old(self).current + if matched {
                1int
            } else {
                0int
            },
    {
        if self.is_at_end() {
            return false;
        }
        if self.source[self.current] != expect {
            return false;
        }
        self.current += 1;
        true
    }

    /// The next character, or NUL at the end of the text.
    fn peek(&self) -> (ch: char)
        requires
            self.bounded(),
        ensures
            ch == if self.current < self.source@.len() {
                self.source@[self.current as int]
            } else {
                '\0'
            },
    {
        if self.is_at_end() {
            return '\0';
        }
        self.source[self.current]
    }

    /// Scans a string literal whose opening quote was just consumed.
    fn string(&mut self)
        requires
            old(self).wf(),
            old(self).current == old(self).start + 1,
            old(self).source@[old(self).start as int] == '"',
        ensures
            final(self).yields(old(self), step(old(self).source@, old(self).start as int)),
    {
        let ghost src = self.source@;
        let ghost pos = self.start as int;
        let first_line = self.line;
        proof {
            reveal(step);
            lemma_line_step(src, pos);
        }
        while self.peek() != '"' && !self.is_at_end()
            invariant
                self.source == old(self).source,
                self.tokens == old(self).tokens,
                self.start == old(self).start,
                self.log == old(self).log,
                self.wf(),
                src == self.source@,
                pos + 1 <= self.current,
                run_end(src, self.current as int, Run::Quoted) == run_end(
                    src,
                    pos + 1,
                    Run::Quoted,
                ),
            decreases src.len() - self.current,
        {
            proof {
                lemma_line_step(src, self.current as int);
                lemma_line_bound(src, self.current as int + 1);
            }
            if self.peek() == '\n' {
                self.line += 1;
            }
            self.advance();
        }

        if self.is_at_end() {
            let ghost before = self.log@.entries;
            error(&mut self.log, self.line, "Unterminated string.".to_string());
            proof {
                assert(token_views(self.tokens@) =~= token_views(old(self).tokens@) + Seq::<
                    TokenView,
                >::empty());
                assert(self.log@.entries =~= before + step(src, pos).errors);
            }
            return;
        }
        // the closing quote
        proof {
            lemma_line_step(src, self.current as int);
        }
        self.advance();

        let val = text_of(&self.source, self.start + 1, self.current - 1);
        self.add_token_literal(TokenType::Str, Some(Literal::Str(val)), first_line);
    }

    fn is_digit(&self, c: char) -> (digit: bool)
        ensures
            digit == is_digit(c),
    {
        c >= '0' && c <= '9'
    }

    /// Scans a number literal whose first digit was just consumed.
    fn number(&mut self)
        requires
            old(self).wf(),
            old(self).current == old(self).start + 1,
            is_digit(old(self).source@[old(self).start as int]),
        ensures
            final(self).yields(old(self), step(old(self).source@, old(self).start as int)),
    {
        let ghost src = self.source@;
        let ghost pos = self.start as int;
        proof {
            reveal(step);
            lemma_line_step(src, pos);
        }
        while self.is_digit(self.peek())
            invariant
                self.advanced_from(old(self)),
                self.wf(),
                src == self.source@,
                run_end(src, self.current as int, Run::Digits) == run_end(src, pos, Run::Digits),
            decreases src.len() - self.current,
        {
            proof {
                lemma_line_step(src, self.current as int);
            }
            self.advance();
        }

        if self.peek() == '.' && self.is_digit(self.peek_next()) {
            proof {
                lemma_line_step(src, self.current as int);
            }
            // consume the '.'
            self.advance();

            while self.is_digit(self.peek())
                invariant
                    self.advanced_from(old(self)),
                    self.wf(),
                    src == self.source@,
                    run_end(src, self.current as int, Run::Digits) == number_end(src, pos),
                decreases src.len() - self.current,
            {
                proof {
                    lemma_line_step(src, self.current as int);
                }
                self.advance();
            }
        }
        let val = text_of(&self.source, self.start, self.current);
        let line = self.line;
        self.add_token_literal(TokenType::Number, Some(Literal::Number(val)), line);
    }

    /// The character after the next, or NUL where the text ends before it.
    fn peek_next(&self) -> (ch: char)
        requires
            self.bounded(),
        ensures
            ch == if self.current + 1 < self.source@.len() {
                self.source@[self.current + 1]
            } else {
                '\0'
            },
    {
        if self.current + 1 >= self.source.len() {
            return '\0';
        }
        self.source[self.current + 1]
    }

    /// Scans an identifier or keyword whose first character was just
    /// consumed.
    fn identifier(&mut self)
        requires
            old(self).wf(),
            old(self).current == old(self).start + 1,
            is_alpha(old(self).source@[old(self).start as int]),
        ensures
            final(self).yields(old(self), step(old(self).source@, old(self).start as int)),
    {
        let ghost src = self.source@;
        let ghost pos = self.start as int;
        proof {
            reveal(step);
            lemma_line_step(src, pos);
        }
        while self.is_alphanumeric(self.peek())
            invariant
                self.advanced_from(old(self)),
                self.wf(),
                src == self.source@,
                run_end(src, self.current as int, Run::Word) == run_end(src, pos, Run::Word),
            decreases src.len() - self.current,
        {
            proof {
                lemma_line_step(src, self.current as int);
            }
            self.advance();
        }

        if let Some(tok_type) = lookup_keyword(&self.source, self.start, self.current) {
            self.add_token(tok_type);
        } else {
            self.add_token(TokenType::Identifier);
        }
    }

    fn is_alpha(&self, c: char) -> (alpha: bool)
        ensures
            alpha == is_alpha(c),
    {
        (c >= 'a' && c <= 'z') || (c >= 'A' && c <= 'Z') || c == '_'
    }

    fn is_alphanumeric(&self, c: char) -> (alphanumeric: bool)
        ensures
            alphanumeric == is_alphanumeric(c),
    {
        self.is_alpha(c) || self.is_digit(c)
    }
}

} // verus!
