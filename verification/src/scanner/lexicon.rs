//! The lexical grammar, as functions on a source text and a position in it.

use vstd::prelude::*;

use crate::error::SyntaxError;
use crate::scanner::token::{SpecToken, SpecTokenType};

verus! {

/// Whether `c` is one of the ten ASCII decimal digits.
pub open spec fn is_digit(c: char) -> bool {
    '0' <= c && c <= '9'
}

/// What `char::is_alphabetic` answers for `c`.
pub uninterp spec fn alphabetic(c: char) -> bool;

/// What `char::is_alphanumeric` answers for `c`.
pub uninterp spec fn alphanumeric(c: char) -> bool;

/// `char::is_alphabetic` answers by the Unicode `Alphabetic` property of its
/// argument alone; the contract only gives that answer a name.
pub assume_specification[ char::is_alphabetic ](c: char) -> (b: bool)
    ensures
        b == alphabetic(c),
;

/// `char::is_alphanumeric` answers by the Unicode properties of its argument
/// alone; the contract only gives that answer a name.
pub assume_specification[ char::is_alphanumeric ](c: char) -> (b: bool)
    ensures
        b == alphanumeric(c),
;

/// What a character that is no punctuation, operator, quote or whitespace
/// opens.
#[derive(Debug, Clone, Copy, PartialEq, Eq, Structural)]
pub enum Lead {
    /// A numeric literal.
    Number,
    /// An identifier or reserved word.
    Word,
    /// Nothing: the character is unexpected.
    Stray,
}

/// What `c` opens, where `is_alphabetic` says whether `c` is alphabetic: a
/// number if it is a digit, a word if it is alphabetic or `_`, and nothing
/// otherwise.
pub open spec fn lead(c: char, is_alphabetic: bool) -> Lead {
    if is_digit(c) {
        Lead::Number
    } else if is_alphabetic || c == '_' {
        Lead::Word
    } else {
        Lead::Stray
    }
}

/// Whether a word goes on with `c`, where `is_alphanumeric` says whether
/// `c` is alphanumeric.
pub open spec fn word_part(c: char, is_alphanumeric: bool) -> bool {
    is_alphanumeric || c == '_'
}

/// The kinds of character run that a lexeme can be made of.
pub enum Run {
    /// Decimal digits.
    Digits,
    /// What an identifier continues with: alphanumeric characters and `_`.
    Word,
    /// Everything up to the end of the line.
    Comment,
    /// Everything up to the next double quote.
    Quoted,
}

impl Run {
    /// Whether `c` belongs to a run of this kind.
    pub open spec fn has(self, c: char) -> bool {
        match self {
            Run::Digits => is_digit(c),
            Run::Word => word_part(c, alphanumeric(c)),
            Run::Comment => c != '\n',
            Run::Quoted => c != '"',
        }
    }
}

/// Where the longest run of `run` characters that starts at `pos` ends: the
/// first position from `pos` on that holds a character outside the run, or
/// the end of the text.
pub open spec fn run_end(src: Seq<char>, pos: nat, run: Run) -> nat
    decreases src.len() - pos,
{
    if pos < src.len() && run.has(src[pos as int]) {
        run_end(src, pos + 1, run)
    } else {
        pos
    }
}

/// How many newlines `src` holds from `from` up to, not including, `to`.
pub open spec fn newlines(src: Seq<char>, from: nat, to: nat) -> nat
    decreases to - from,
{
    if from < to && to <= src.len() {
        newlines(src, from, (to - 1) as nat) + if src[to - 1] == '\n' {
            1nat
        } else {
            0nat
        }
    } else {
        0
    }
}

/// The reserved word that `text` spells, if it spells one. The match is
/// exact and case-sensitive.
pub open spec fn reserved_word(text: Seq<char>) -> Option<SpecTokenType> {
    if text =~= seq!['a', 'n', 'd'] {
        Some(SpecTokenType::And)
    } else if text =~= seq!['c', 'l', 'a', 's', 's'] {
        Some(SpecTokenType::Class)
    } else if text =~= seq!['e', 'l', 's', 'e'] {
        Some(SpecTokenType::Else)
    } else if text =~= seq!['f', 'a', 'l', 's', 'e'] {
        Some(SpecTokenType::False)
    } else if text =~= seq!['f', 'o', 'r'] {
        Some(SpecTokenType::For)
    } else if text =~= seq!['f', 'u', 'n'] {
        Some(SpecTokenType::Fun)
    } else if text =~= seq!['i', 'f'] {
        Some(SpecTokenType::If)
    } else if text =~= seq!['n', 'i', 'l'] {
        Some(SpecTokenType::Nil)
    } else if text =~= seq!['o', 'r'] {
        Some(SpecTokenType::Or)
    } else if text =~= seq!['p', 'r', 'i', 'n', 't'] {
        Some(SpecTokenType::Print)
    } else if text =~= seq!['r', 'e', 't', 'u', 'r', 'n'] {
        Some(SpecTokenType::Return)
    } else if text =~= seq!['s', 'u', 'p', 'e', 'r'] {
        Some(SpecTokenType::Super)
    } else if text =~= seq!['t', 'h', 'i', 's'] {
        Some(SpecTokenType::This)
    } else if text =~= seq!['t', 'r', 'u', 'e'] {
        Some(SpecTokenType::True)
    } else if text =~= seq!['v', 'a', 'r'] {
        Some(SpecTokenType::Var)
    } else if text =~= seq!['w', 'h', 'i', 'l', 'e'] {
        Some(SpecTokenType::While)
    } else {
        None
    }
}

/// The token type of a word: its reserved word if it spells one, an
/// identifier otherwise.
pub open spec fn word_type(text: Seq<char>) -> SpecTokenType {
    match reserved_word(text) {
        Some(token_type) => token_type,
        None => SpecTokenType::Identifier(text),
    }
}

/// What scanning one lexeme gives: the tokens it adds, the error it reports
/// if any, and where the scanner stands afterwards.
pub struct Step {
    pub tokens: Seq<SpecToken>,
    pub error: Option<SyntaxError>,
    /// The position after the lexeme.
    pub end: nat,
    /// The line count after the lexeme.
    pub line: nat,
}

/// A step that adds nothing and moves to `end` on line `line`.
pub open spec fn skip(end: nat, line: nat) -> Step {
    Step { tokens: Seq::empty(), error: None, end, line }
}

/// A step that adds one token of type `token_type` and moves to `end`.
pub open spec fn emit(token_type: SpecTokenType, end: nat, line: nat) -> Step {
    Step { tokens: seq![SpecToken { token_type, line }], error: None, end, line }
}

/// A step that reports `error` and moves to `end`.
pub open spec fn fail(error: SyntaxError, end: nat, line: nat) -> Step {
    Step { tokens: Seq::empty(), error: Some(error), end, line }
}

/// Whether the character at `pos` is `expected`.
pub open spec fn holds(src: Seq<char>, pos: nat, expected: char) -> bool {
    pos < src.len() && src[pos as int] == expected
}

/// An operator that may be followed by `=`: `long` with the `=`, `short`
/// without. `pos` is the position after the operator's first character.
pub open spec fn operator_step(
    src: Seq<char>,
    pos: nat,
    line: nat,
    long: SpecTokenType,
    short: SpecTokenType,
) -> Step {
    if holds(src, pos, '=') {
        emit(long, pos + 1, line)
    } else {
        emit(short, pos, line)
    }
}

/// A string literal whose opening quote stands just before `pos`. Its text
/// is everything up to the closing quote, taken as it stands; each newline
/// in it counts a line. Where the text ends before a closing quote, the step
/// reports the string as unterminated and adds no token.
pub open spec fn string_step(src: Seq<char>, pos: nat, line: nat) -> Step {
    let close = run_end(src, pos, Run::Quoted);
    let last_line = line + newlines(src, pos, close);
    if close < src.len() {
        emit(SpecTokenType::String(src.subrange(pos as int, close as int)), close + 1, last_line)
    } else {
        fail(SyntaxError::UnterminatedString { line: last_line as usize }, close, last_line)
    }
}

/// A numeric literal that starts at `start`. It is the longest run of digits
/// there, and goes on through a `.` and the digits behind it only where a
/// digit follows the `.` directly. A `.` with no digit behind it is a token
/// of its own.
pub open spec fn number_step(src: Seq<char>, start: nat, line: nat) -> Step {
    let whole = run_end(src, start + 1, Run::Digits);
    if holds(src, whole, '.') {
        if whole + 1 < src.len() && is_digit(src[whole + 1 as int]) {
            let end = run_end(src, whole + 1, Run::Digits);
            emit(SpecTokenType::Number(src.subrange(start as int, end as int)), end, line)
        } else {
            Step {
                tokens: seq![
                    SpecToken {
                        token_type: SpecTokenType::Number(src.subrange(start as int, whole as int)),
                        line,
                    },
                    SpecToken { token_type: SpecTokenType::Dot, line },
                ],
                error: None,
                end: whole + 1,
                line,
            }
        }
    } else {
        emit(SpecTokenType::Number(src.subrange(start as int, whole as int)), whole, line)
    }
}

/// An identifier or reserved word that starts at `start`.
pub open spec fn word_step(src: Seq<char>, start: nat, line: nat) -> Step {
    let end = run_end(src, start + 1, Run::Word);
    emit(word_type(src.subrange(start as int, end as int)), end, line)
}

/// The lexeme that starts at `pos`, which must lie inside `src`, with
/// `line` newlines seen so far.
pub open spec fn scan_step(src: Seq<char>, pos: nat, line: nat) -> Step {
    let c = src[pos as int];
    let next = pos + 1;
    if c == '(' {
        emit(SpecTokenType::LeftParen, next, line)
    } else if c == ')' {
        emit(SpecTokenType::RightParen, next, line)
    } else if c == '{' {
        emit(SpecTokenType::LeftBrace, next, line)
    } else if c == '}' {
        emit(SpecTokenType::RightBrace, next, line)
    } else if c == ',' {
        emit(SpecTokenType::Comma, next, line)
    } else if c == '.' {
        emit(SpecTokenType::Dot, next, line)
    } else if c == '-' {
        emit(SpecTokenType::Minus, next, line)
    } else if c == '+' {
        emit(SpecTokenType::Plus, next, line)
    } else if c == ';' {
        emit(SpecTokenType::Semicolon, next, line)
    } else if c == '*' {
        emit(SpecTokenType::Star, next, line)
    } else if c == '!' {
        operator_step(src, next, line, SpecTokenType::BangEqual, SpecTokenType::Bang)
    } else if c == '=' {
        operator_step(src, next, line, SpecTokenType::EqualEqual, SpecTokenType::Equal)
    } else if c == '<' {
        operator_step(src, next, line, SpecTokenType::LessEqual, SpecTokenType::Less)
    } else if c == '>' {
        operator_step(src, next, line, SpecTokenType::GreaterEqual, SpecTokenType::Greater)
    } else if c == '/' {
        if holds(src, next, '/') {
            skip(run_end(src, next + 1, Run::Comment), line)
        } else {
            emit(SpecTokenType::Slash, next, line)
        }
    } else if c == ' ' || c == '\r' || c == '\t' {
        skip(next, line)
    } else if c == '\n' {
        skip(next, line + 1)
    } else if c == '"' {
        string_step(src, next, line)
    } else {
        match lead(c, alphabetic(c)) {
            Lead::Number => number_step(src, pos, line),
            Lead::Word => word_step(src, pos, line),
            Lead::Stray => fail(
                SyntaxError::UnexpectedCharacter { line: line as usize, character: c },
                next,
                line,
            ),
        }
    }
}

/// A run ends no earlier than it starts and no later than the text does.
pub proof fn lemma_run_end_bounds(src: Seq<char>, pos: nat, run: Run)
    ensures
        pos <= run_end(src, pos, run),
        pos <= src.len() ==> run_end(src, pos, run) <= src.len(),
    decreases src.len() - pos,
{
    if pos < src.len() && run.has(src[pos as int]) {
        lemma_run_end_bounds(src, pos + 1, run);
    }
}

/// A stretch of text holds at most as many newlines as characters.
pub proof fn lemma_newlines_bound(src: Seq<char>, from: nat, to: nat)
    requires
        from <= to,
    ensures
        newlines(src, from, to) <= to - from,
    decreases to - from,
{
    if from < to && to <= src.len() {
        lemma_newlines_bound(src, from, (to - 1) as nat);
    }
}

/// Every lexeme takes at least one character, ends inside the text, and
/// counts no more lines than it takes characters.
pub proof fn lemma_step_advances(src: Seq<char>, pos: nat, line: nat)
    requires
        pos < src.len(),
    ensures
        pos < scan_step(src, pos, line).end <= src.len(),
        line <= scan_step(src, pos, line).line <= line + (scan_step(src, pos, line).end - pos),
{
    lemma_run_end_bounds(src, pos + 1, Run::Digits);
    lemma_run_end_bounds(src, pos + 1, Run::Word);
    lemma_run_end_bounds(src, pos + 1, Run::Quoted);
    lemma_run_end_bounds(src, pos + 2, Run::Comment);
    let whole = run_end(src, pos + 1, Run::Digits);
    lemma_run_end_bounds(src, whole + 1, Run::Digits);
    lemma_newlines_bound(src, pos + 1, run_end(src, pos + 1, Run::Quoted));
}

/// What scanning a stretch of text gives: the tokens and errors in the order
/// found, and the line count at its end.
pub struct Scan {
    pub tokens: Seq<SpecToken>,
    pub errors: Seq<SyntaxError>,
    pub line: nat,
}

/// The errors of a step: none or one.
pub open spec fn step_errors(step: Step) -> Seq<SyntaxError> {
    match step.error {
        Some(error) => seq![error],
        None => Seq::empty(),
    }
}

/// Scanning `src` from `pos` to its end, lexeme by lexeme, with `line`
/// newlines seen so far.
pub open spec fn scan_from(src: Seq<char>, pos: nat, line: nat) -> Scan
    decreases src.len() - pos,
{
    if pos < src.len() {
        proof {
            lemma_step_advances(src, pos, line);
        }
        let step = scan_step(src, pos, line);
        let rest = scan_from(src, step.end, step.line);
        Scan {
            tokens: step.tokens + rest.tokens,
            errors: step_errors(step) + rest.errors,
            line: rest.line,
        }
    } else {
        Scan { tokens: Seq::empty(), errors: Seq::empty(), line }
    }
}

/// The end-of-input token on line `line`.
pub open spec fn eof(line: nat) -> SpecToken {
    SpecToken { token_type: SpecTokenType::Eof, line }
}

/// Scanning the whole of `src`: its tokens, closed by one end-of-input
/// token on the last line, and its errors.
pub open spec fn scan(src: Seq<char>) -> Scan {
    let body = scan_from(src, 0, 0);
    Scan { tokens: body.tokens.push(eof(body.line)), errors: body.errors, line: body.line }
}

} // verus!
