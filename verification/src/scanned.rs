//! What holds of every scan: lines and newlines, maximal munch, the exact
//! keyword table, and where and in what form each token lies in the source.

use vstd::prelude::*;

use crate::diagnostics::DiagnosticView;
use crate::lexing::{
    eof_token, follows, is_alpha, is_alphanumeric, is_blank, is_digit, keyword,
    keyword_spelling, lemma_line_step, lemma_run_end_bounds, lemma_step_advances, line_at,
    newlines, number_end, operator, plain_token, punctuation, run_end, scan, scan_from,
    starts_from, step, word_type, Run, Scanned, Step,
};
use crate::token::{
    payload_fits, payloads_fit, terminated, LiteralView, TokenType, TokenView,
};

verus! {

/// Maximal munch: every character of a run is admitted by it, and the run
/// stops only at the end of the text or at a character it does not admit.
pub proof fn lemma_run_end_maximal(src: Seq<char>, pos: int, run: Run)
    requires
        0 <= pos <= src.len(),
    ensures
        forall|i: int| pos <= i < run_end(src, pos, run) ==> run.admits(#[trigger] src[i]),
        run_end(src, pos, run) == src.len() || !run.admits(src[run_end(src, pos, run)]),
    decreases src.len() - pos,
{
    if pos < src.len() && run.admits(src[pos]) {
        lemma_run_end_maximal(src, pos + 1, run);
    }
}

/// A stretch of text without a newline lies on one line.
pub proof fn lemma_line_constant(src: Seq<char>, from: int, to: int)
    requires
        0 <= from <= to <= src.len(),
        forall|i: int| from <= i < to ==> #[trigger] src[i] != '\n',
    ensures
        line_at(src, to) == line_at(src, from),
    decreases to - from,
{
    if from < to {
        lemma_line_constant(src, from, to - 1);
        lemma_line_step(src, to - 1);
    }
}

/// A block of `n` newlines moves the line counter on by `n`.
pub proof fn lemma_newline_block(src: Seq<char>, pos: int, n: nat)
    requires
        0 <= pos,
        pos + n <= src.len(),
        forall|i: int| pos <= i < pos + n ==> #[trigger] src[i] == '\n',
    ensures
        line_at(src, pos + n) == line_at(src, pos) + n,
    decreases n,
{
    if n > 0 {
        lemma_newline_block(src, pos, (n - 1) as nat);
        lemma_line_step(src, pos + n - 1);
    }
}

/// Blank characters yield nothing: scanning from a blank is scanning from
/// the character after it.
pub proof fn lemma_blank_yields_nothing(src: Seq<char>, pos: int)
    requires
        0 <= pos < src.len(),
        is_blank(src[pos]),
    ensures
        scan_from(src, pos) == scan_from(src, pos + 1),
{
    reveal(step);
    let rest = scan_from(src, pos + 1);
    assert(Seq::<TokenView>::empty() + rest.tokens =~= rest.tokens);
    assert(Seq::<DiagnosticView>::empty() + rest.errors =~= rest.errors);
}

/// A line comment yields nothing: from `//` on, scanning goes on at the end
/// of the line, which is the next newline or the end of the text.
pub proof fn lemma_comment_yields_nothing(src: Seq<char>, pos: int)
    requires
        0 <= pos,
        follows(src, pos, '/'),
        follows(src, pos + 1, '/'),
    ensures
        ({
            let end = run_end(src, pos + 2, Run::Comment);
            &&& pos + 2 <= end <= src.len()
            &&& forall|i: int| pos <= i < end ==> #[trigger] src[i] != '\n'
            &&& end == src.len() || src[end] == '\n'
            &&& scan_from(src, pos) == scan_from(src, end)
            &&& line_at(src, end) == line_at(src, pos)
        }),
{
    reveal(step);
    let end = run_end(src, pos + 2, Run::Comment);
    lemma_run_end_bounds(src, pos + 2, Run::Comment);
    lemma_run_end_maximal(src, pos + 2, Run::Comment);
    assert forall|i: int| pos <= i < end implies #[trigger] src[i] != '\n' by {
        if i >= pos + 2 {
            assert(Run::Comment.admits(src[i]));
        }
    }
    lemma_line_constant(src, pos, end);
    let rest = scan_from(src, end);
    assert(Seq::<TokenView>::empty() + rest.tokens =~= rest.tokens);
    assert(Seq::<DiagnosticView>::empty() + rest.errors =~= rest.errors);
}

/// A string literal that is closed is one token: from its opening quote
/// to the next quote, with the text between them as its payload.
pub proof fn lemma_string_literal(src: Seq<char>, pos: int, close: int)
    requires
        0 <= pos < close < src.len(),
        src[pos] == '"',
        src[close] == '"',
        forall|i: int| pos < i < close ==> #[trigger] src[i] != '"',
    ensures
        step(src, pos) == Step::token(
            close + 1,
            TokenView {
                token_type: TokenType::Str,
                lexeme: src.subrange(pos, close + 1),
                literal: Some(LiteralView::Str(src.subrange(pos + 1, close))),
                line: line_at(src, pos),
            },
        ),
{
    reveal(step);
    lemma_run_end_to(src, pos + 1, close, Run::Quoted);
}

/// A string literal that is not closed is an error and no token: the step
/// at its opening quote takes the rest of the text and reports it on the
/// line that the text ends on.
pub proof fn lemma_unterminated_string(src: Seq<char>, pos: int)
    requires
        0 <= pos < src.len(),
        src[pos] == '"',
        forall|i: int| pos < i < src.len() ==> #[trigger] src[i] != '"',
    ensures
        step(src, pos) == Step::error(
            src.len() as int,
            DiagnosticView {
                line: line_at(src, src.len() as int),
                location: Seq::empty(),
                message: "Unterminated string."@,
            },
        ),
        scan_from(src, pos).tokens == Seq::<TokenView>::empty(),
        scan_from(src, pos).errors == step(src, pos).errors,
{
    reveal(step);
    lemma_run_end_to(src, pos + 1, src.len() as int, Run::Quoted);
    let rest = scan_from(src, src.len() as int);
    assert(step(src, pos).tokens + rest.tokens =~= Seq::<TokenView>::empty());
    assert(step(src, pos).errors + rest.errors =~= step(src, pos).errors);
}

/// A point after a numeral belongs to it only if a digit follows the
/// point: otherwise the numeral ends before the point, and the point is a
/// token of its own.
pub proof fn lemma_trailing_point(src: Seq<char>, pos: int)
    requires
        0 <= pos < src.len(),
        is_digit(src[pos]),
        follows(src, run_end(src, pos, Run::Digits), '.'),
        !(run_end(src, pos, Run::Digits) + 1 < src.len() && is_digit(
            src[run_end(src, pos, Run::Digits) + 1],
        )),
    ensures
        step(src, pos).end == run_end(src, pos, Run::Digits),
        step(src, step(src, pos).end) == Step::token(
            step(src, pos).end + 1,
            plain_token(TokenType::Dot, src, step(src, pos).end, step(src, pos).end + 1),
        ),
{
    reveal(step);
}

/// A run that is admitted all the way to `to` and not at `to` ends there.
pub proof fn lemma_run_end_to(src: Seq<char>, pos: int, to: int, run: Run)
    requires
        0 <= pos <= to <= src.len(),
        forall|i: int| pos <= i < to ==> run.admits(#[trigger] src[i]),
        to == src.len() || !run.admits(src[to]),
    ensures
        run_end(src, pos, run) == to,
    decreases to - pos,
{
    if pos < to {
        lemma_run_end_to(src, pos + 1, to, run);
    }
}

/// A single punctuation mark scans to its token and the end-of-input token,
/// both on line 1, without error.
pub proof fn lemma_scan_punctuation(c: char)
    requires
        punctuation(c) is Some,
    ensures
        scan(seq![c]) == (Scanned {
            tokens: seq![
                TokenView {
                    token_type: punctuation(c).unwrap(),
                    lexeme: seq![c],
                    literal: None,
                    line: 1,
                },
                TokenView {
                    token_type: TokenType::Eof,
                    lexeme: Seq::empty(),
                    literal: None,
                    line: 1,
                },
            ],
            errors: Seq::empty(),
        }),
{
    reveal(step);
    let src = seq![c];
    assert(src.take(0) =~= Seq::<char>::empty());
    lemma_line_step(src, 0);
    let first = step(src, 0);
    assert(first.end == 1);
    assert(src.subrange(0, 1) =~= src);
    let rest = scan_from(src, 1);
    assert(rest.tokens =~= Seq::<TokenView>::empty());
    assert(scan(src).tokens =~= seq![first.tokens[0], eof_token(src)]);
    assert(scan(src).errors =~= Seq::<DiagnosticView>::empty());
}

/// `!`, `=`, `<` and `>` directly followed by `=` scan to the one token of
/// the two-character operator, never to two tokens.
pub proof fn lemma_scan_two_character_operator(c: char)
    requires
        operator(c) is Some,
    ensures
        scan(seq![c, '=']) == (Scanned {
            tokens: seq![
                TokenView {
                    token_type: operator(c).unwrap().1,
                    lexeme: seq![c, '='],
                    literal: None,
                    line: 1,
                },
                TokenView {
                    token_type: TokenType::Eof,
                    lexeme: Seq::empty(),
                    literal: None,
                    line: 1,
                },
            ],
            errors: Seq::empty(),
        }),
{
    reveal(step);
    let src = seq![c, '='];
    assert(src.take(0) =~= Seq::<char>::empty());
    lemma_line_step(src, 0);
    lemma_line_step(src, 1);
    let first = step(src, 0);
    assert(first.end == 2);
    assert(src.subrange(0, 2) =~= src);
    let rest = scan_from(src, 2);
    assert(rest.tokens =~= Seq::<TokenView>::empty());
    assert(scan(src).tokens =~= seq![first.tokens[0], eof_token(src)]);
    assert(scan(src).errors =~= Seq::<DiagnosticView>::empty());
}

/// Wherever one of `!`, `=`, `<`, `>` is directly followed by `=`, the step
/// there takes both characters as one token.
pub proof fn lemma_operator_munch(src: Seq<char>, pos: int)
    requires
        0 <= pos < src.len(),
        operator(src[pos]) is Some,
        follows(src, pos + 1, '='),
    ensures
        step(src, pos) == Step::token(
            pos + 2,
            plain_token(operator(src[pos]).unwrap().1, src, pos, pos + 2),
        ),
{
    reveal(step);
}

/// The keyword table is exact: a text is a keyword if and only if it is,
/// character for character, the spelling of that keyword. A word that only
/// starts like a keyword is none.
pub proof fn lemma_keyword_exact(text: Seq<char>, k: TokenType)
    ensures
        keyword(text) == Some(k) <==> (k.is_keyword() && text == keyword_spelling(k)),
{
    reveal_strlit("and");
    reveal_strlit("class");
    reveal_strlit("else");
    reveal_strlit("false");
    reveal_strlit("for");
    reveal_strlit("fun");
    reveal_strlit("if");
    reveal_strlit("nil");
    reveal_strlit("or");
    reveal_strlit("print");
    reveal_strlit("return");
    reveal_strlit("super");
    reveal_strlit("this");
    reveal_strlit("true");
    reveal_strlit("var");
    reveal_strlit("while");
    if k.is_keyword() && text == keyword_spelling(k) {
        assert(text.len() >= 2);
        assert(text[0] == keyword_spelling(k)[0]);
        assert(text[1] == keyword_spelling(k)[1]);
    }
}

/// A word is an identifier exactly when it is the spelling of no keyword.
pub proof fn lemma_identifier_unless_keyword(text: Seq<char>)
    ensures
        word_type(text) is Identifier <==> forall|k: TokenType|
            k.is_keyword() ==> text != #[trigger] keyword_spelling(k),
{
    if keyword(text) is Some {
        let k = keyword(text).unwrap();
        lemma_keyword_exact(text, k);
        assert(k.is_keyword() && text == keyword_spelling(k));
    } else {
        assert forall|k: TokenType| k.is_keyword() implies text != #[trigger] keyword_spelling(
            k,
        ) by {
            lemma_keyword_exact(text, k);
        }
    }
}

/// Whether `t` is the text of `src` that starts at `start`, on the line of
/// that position: one more than the number of newlines before it.
pub open spec fn lies_at(src: Seq<char>, t: TokenView, start: int) -> bool {
    &&& 0 <= start
    &&& t.lexeme.len() > 0
    &&& start + t.lexeme.len() <= src.len()
    &&& t.lexeme == src.subrange(start, start + t.lexeme.len())
    &&& t.line == 1 + newlines(src.take(start))
}

/// How a punctuation mark or an operator is written; empty for every
/// other category.
pub open spec fn symbol_spelling(tt: TokenType) -> Seq<char> {
    match tt {
        TokenType::LeftParen => seq!['('],
        TokenType::RightParen => seq![')'],
        TokenType::LeftBrace => seq!['{'],
        TokenType::RightBrace => seq!['}'],
        TokenType::Comma => seq![','],
        TokenType::Dot => seq!['.'],
        TokenType::Minus => seq!['-'],
        TokenType::Plus => seq!['+'],
        TokenType::Semicolon => seq![';'],
        TokenType::Slash => seq!['/'],
        TokenType::Star => seq!['*'],
        TokenType::Bang => seq!['!'],
        TokenType::BangEqual => seq!['!', '='],
        TokenType::Equal => seq!['='],
        TokenType::EqualEqual => seq!['=', '='],
        TokenType::Greater => seq!['>'],
        TokenType::GreaterEqual => seq!['>', '='],
        TokenType::Less => seq!['<'],
        TokenType::LessEqual => seq!['<', '='],
        _ => Seq::empty(),
    }
}

/// A numeral is one or more digits, or two such groups with a point
/// between them: it starts and ends with a digit, holds nothing but digits
/// and points, and no more than one point.
pub open spec fn is_numeral(text: Seq<char>) -> bool {
    &&& text.len() > 0
    &&& is_digit(text[0])
    &&& is_digit(text.last())
    &&& forall|i: int| 0 <= i < text.len() ==> is_digit(#[trigger] text[i]) || text[i] == '.'
    &&& forall|i: int, j: int|
        0 <= i < j < text.len() ==> !(#[trigger] text[i] == '.' && #[trigger] text[j] == '.')
}

/// A word starts with a letter or an underscore and goes on with letters,
/// digits and underscores.
pub open spec fn is_word(text: Seq<char>) -> bool {
    &&& text.len() > 0
    &&& is_alpha(text[0])
    &&& forall|i: int| 0 <= i < text.len() ==> is_alphanumeric(#[trigger] text[i])
}

/// Whether `t` has the form that its category prescribes: the lexeme that
/// the category is written with, and the payload that goes with it.
pub open spec fn well_formed(t: TokenView) -> bool {
    match t.token_type {
        TokenType::Eof => false,
        TokenType::Str => {
            &&& t.lexeme.len() >= 2
            &&& t.lexeme[0] == '"'
            &&& t.lexeme.last() == '"'
            &&& forall|i: int| 1 <= i < t.lexeme.len() - 1 ==> #[trigger] t.lexeme[i] != '"'
            &&& t.literal == Some(LiteralView::Str(t.lexeme.subrange(1, t.lexeme.len() - 1)))
        },
        TokenType::Number => {
            &&& is_numeral(t.lexeme)
            &&& t.literal == Some(LiteralView::Number(t.lexeme))
        },
        TokenType::Identifier => {
            &&& is_word(t.lexeme)
            &&& keyword(t.lexeme) is None
            &&& t.literal is None
        },
        _ => {
            &&& t.literal is None
            &&& if t.token_type.is_keyword() {
                t.lexeme == keyword_spelling(t.token_type)
            } else {
                t.lexeme == symbol_spelling(t.token_type)
            }
        },
    }
}

/// The token of a step, if it has one, is the text from where the step
/// starts to where it ends.
pub proof fn lemma_step_token(src: Seq<char>, pos: int)
    requires
        0 <= pos < src.len(),
    ensures
        step(src, pos).tokens.len() <= 1,
        step(src, pos).tokens.len() == 1 ==> lies_at(src, step(src, pos).tokens[0], pos) && pos
            + step(src, pos).tokens[0].lexeme.len() == step(src, pos).end,
{
    reveal(step);
    lemma_step_advances(src, pos);
}

/// The numeral that starts at a digit is a numeral.
pub proof fn lemma_number_is_numeral(src: Seq<char>, pos: int)
    requires
        0 <= pos < src.len(),
        is_digit(src[pos]),
    ensures
        pos < number_end(src, pos) <= src.len(),
        is_numeral(src.subrange(pos, number_end(src, pos))),
{
    let whole = run_end(src, pos, Run::Digits);
    let end = number_end(src, pos);
    lemma_run_end_bounds(src, pos + 1, Run::Digits);
    lemma_run_end_maximal(src, pos, Run::Digits);
    let text = src.subrange(pos, end);
    if end != whole {
        lemma_run_end_bounds(src, whole + 2, Run::Digits);
        lemma_run_end_maximal(src, whole + 1, Run::Digits);
        assert forall|i: int| 0 <= i < text.len() implies is_digit(#[trigger] text[i]) || text[i]
            == '.' by {
            if pos + i < whole {
                assert(Run::Digits.admits(src[pos + i]));
            } else if pos + i > whole {
                assert(Run::Digits.admits(src[pos + i]));
            }
        }
        assert forall|i: int, j: int| 0 <= i < j < text.len() implies !(#[trigger] text[i] == '.'
            && #[trigger] text[j] == '.') by {
            if pos + i != whole {
                assert(Run::Digits.admits(src[pos + i]));
            } else {
                assert(Run::Digits.admits(src[pos + j]));
            }
        }
        assert(Run::Digits.admits(src[end - 1]));
    } else {
        assert forall|i: int| 0 <= i < text.len() implies is_digit(#[trigger] text[i]) by {
            assert(Run::Digits.admits(src[pos + i]));
        }
        assert(is_digit(text[text.len() - 1]));
    }
}

/// The token of a step has the form that its category prescribes.
pub proof fn lemma_step_token_form(src: Seq<char>, pos: int)
    requires
        0 <= pos < src.len(),
        step(src, pos).tokens.len() == 1,
    ensures
        well_formed(step(src, pos).tokens[0]),
{
    reveal(step);
    let c = src[pos];
    let t = step(src, pos).tokens[0];
    if c == '/' && follows(src, pos + 1, '/') {
    } else if punctuation(c) is Some {
        assert(t.lexeme =~= symbol_spelling(t.token_type));
    } else if operator(c) is Some {
        assert(t.lexeme =~= symbol_spelling(t.token_type));
    } else if is_blank(c) {
    } else if c == '"' {
        let close = run_end(src, pos + 1, Run::Quoted);
        lemma_run_end_bounds(src, pos + 1, Run::Quoted);
        lemma_run_end_maximal(src, pos + 1, Run::Quoted);
        assert forall|i: int| 1 <= i < t.lexeme.len() - 1 implies #[trigger] t.lexeme[i]
            != '"' by {
            assert(Run::Quoted.admits(src[pos + i]));
        }
        assert(t.lexeme.subrange(1, t.lexeme.len() - 1) =~= src.subrange(pos + 1, close));
    } else if is_digit(c) {
        lemma_number_is_numeral(src, pos);
    } else if is_alpha(c) {
        let end = run_end(src, pos, Run::Word);
        lemma_run_end_bounds(src, pos + 1, Run::Word);
        lemma_run_end_maximal(src, pos, Run::Word);
        let text = src.subrange(pos, end);
        assert forall|i: int| 0 <= i < text.len() implies is_alphanumeric(#[trigger] text[i]) by {
            assert(Run::Word.admits(src[pos + i]));
        }
        assert(is_word(text));
        if keyword(text) is Some {
            lemma_keyword_exact(text, keyword(text).unwrap());
        }
    }
}

/// Words and numerals are taken whole: the step at a letter ends where no
/// letter, digit or underscore follows, and the step at a digit where no
/// digit follows.
pub proof fn lemma_step_maximal(src: Seq<char>, pos: int)
    requires
        0 <= pos < src.len(),
    ensures
        is_alpha(src[pos]) ==> step(src, pos).end == src.len() || !is_alphanumeric(
            src[step(src, pos).end],
        ),
        is_digit(src[pos]) ==> step(src, pos).end == src.len() || !is_digit(
            src[step(src, pos).end],
        ),
{
    reveal(step);
    lemma_run_end_bounds(src, pos, Run::Word);
    lemma_run_end_maximal(src, pos, Run::Word);
    lemma_run_end_bounds(src, pos, Run::Digits);
    lemma_run_end_maximal(src, pos, Run::Digits);
    let whole = run_end(src, pos, Run::Digits);
    if whole + 1 < src.len() {
        lemma_run_end_bounds(src, whole + 1, Run::Digits);
        lemma_run_end_maximal(src, whole + 1, Run::Digits);
    }
}

/// Every token of a scan is the token of the step at its start position,
/// and the steps of successive tokens do not overlap.
pub proof fn lemma_token_positions(src: Seq<char>, pos: int)
    requires
        0 <= pos <= src.len(),
    ensures
        starts_from(src, pos).len() == scan_from(src, pos).tokens.len(),
        forall|i: int|
            0 <= i < scan_from(src, pos).tokens.len() ==> {
                &&& pos <= #[trigger] starts_from(src, pos)[i] < src.len()
                &&& step(src, starts_from(src, pos)[i]).tokens == seq![
                    scan_from(src, pos).tokens[i],
                ]
                &&& (i + 1 < scan_from(src, pos).tokens.len() ==> step(
                    src,
                    starts_from(src, pos)[i],
                ).end <= starts_from(src, pos)[i + 1])
            },
    decreases src.len() - pos,
{
    if pos < src.len() {
        let first = step(src, pos);
        lemma_step_advances(src, pos);
        lemma_step_token(src, pos);
        lemma_token_positions(src, first.end);
        let rest = scan_from(src, first.end).tokens;
        let rest_starts = starts_from(src, first.end);
        let all = scan_from(src, pos).tokens;
        let all_starts = starts_from(src, pos);
        if first.tokens.len() == 1 {
            assert(all == first.tokens + rest);
            assert(all_starts == seq![pos] + rest_starts);
            assert forall|i: int| 0 <= i < all.len() implies {
                &&& pos <= #[trigger] all_starts[i] < src.len()
                &&& step(src, all_starts[i]).tokens == seq![all[i]]
                &&& (i + 1 < all.len() ==> step(src, all_starts[i]).end <= all_starts[i + 1])
            } by {
                if i > 0 {
                    assert(all[i] == rest[i - 1]);
                    assert(all_starts[i] == rest_starts[i - 1]);
                    if i + 1 < all.len() {
                        assert(all_starts[i + 1] == rest_starts[i]);
                    }
                } else {
                    assert(all[0] == first.tokens[0]);
                    assert(all_starts[0] == pos);
                    assert(first.tokens =~= seq![all[0]]);
                    if 1 < all.len() {
                        assert(all_starts[1] == rest_starts[0]);
                    }
                }
            }
        } else {
            assert(first.tokens =~= Seq::<TokenView>::empty());
            assert(all =~= rest);
            assert(all_starts == rest_starts);
        }
    }
}

/// Every token but the last of a scan lies where the source has it, and
/// has the form of its category: token `i` is the text of the source that
/// starts at its start position, on the line that is one more than the
/// number of newlines before that position, and the next token starts
/// where it ends or later.
pub proof fn lemma_scanned_token(src: Seq<char>, i: int)
    requires
        0 <= i < scan(src).tokens.len() - 1,
    ensures
        starts_from(src, 0).len() == scan(src).tokens.len() - 1,
        lies_at(src, scan(src).tokens[i], starts_from(src, 0)[i]),
        well_formed(scan(src).tokens[i]),
        i + 1 < scan(src).tokens.len() - 1 ==> starts_from(src, 0)[i] + scan(
            src,
        ).tokens[i].lexeme.len() <= starts_from(src, 0)[i + 1],
{
    lemma_token_positions(src, 0);
    let body = scan_from(src, 0).tokens;
    let start = starts_from(src, 0)[i];
    assert(scan(src).tokens[i] == body[i]);
    assert(step(src, start).tokens == seq![body[i]]);
    assert(step(src, start).tokens[0] == body[i]);
    lemma_step_token(src, start);
    lemma_step_token_form(src, start);
}

/// The tokens of a whole scan form a terminated sequence: the last one is
/// the end-of-input token, on the line that the text ends on, and no other
/// one is. Every token is on a line from 1 on.
pub proof fn lemma_scan_terminated(src: Seq<char>)
    ensures
        terminated(scan(src).tokens),
        scan(src).tokens.last() == eof_token(src),
        forall|i: int|
            0 <= i < scan(src).tokens.len() - 1 ==> !((#[trigger] scan(
                src,
            ).tokens[i]).token_type is Eof),
        forall|i: int|
            0 <= i < scan(src).tokens.len() ==> (#[trigger] scan(src).tokens[i]).line >= 1,
{
    assert forall|i: int| 0 <= i < scan(src).tokens.len() - 1 implies !((#[trigger] scan(
        src,
    ).tokens[i]).token_type is Eof) by {
        lemma_scanned_token(src, i);
    }
    assert forall|i: int| 0 <= i < scan(src).tokens.len() implies (#[trigger] scan(
        src,
    ).tokens[i]).line >= 1 by {
        if i < scan(src).tokens.len() - 1 {
            lemma_scanned_token(src, i);
        }
    }
}

/// Every token of a whole scan carries the payload of its category.
pub proof fn lemma_scan_payloads_fit(src: Seq<char>)
    ensures
        payloads_fit(scan(src).tokens),
{
    assert forall|i: int| 0 <= i < scan(src).tokens.len() implies payload_fits(
        #[trigger] scan(src).tokens[i],
    ) by {
        if i < scan(src).tokens.len() - 1 {
            lemma_scanned_token(src, i);
        }
    }
}

} // verus!
