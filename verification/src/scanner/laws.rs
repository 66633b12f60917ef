//! What holds of every scan.

use vstd::prelude::*;

use crate::error::SyntaxError;
use crate::scanner::lexicon::{eof, holds, is_digit, lemma_run_end_bounds, lemma_step_advances, reserved_word, run_end, scan, scan_from, scan_step, step_errors, Run};
use crate::scanner::token::{SpecToken, SpecTokenType};
use crate::scanner::ScannerState;

verus! {

/// Whether `c` is a space, a carriage return, a tab or a newline.
pub open spec fn is_space(c: char) -> bool {
    c == ' ' || c == '\r' || c == '\t' || c == '\n'
}

/// Whether `src` holds nothing but whitespace and line comments from `pos`
/// to its end.
pub open spec fn blank_from(src: Seq<char>, pos: nat) -> bool
    decreases src.len() - pos,
{
    if pos >= src.len() {
        true
    } else if is_space(src[pos as int]) {
        blank_from(src, pos + 1)
    } else if src[pos as int] == '/' && holds(src, pos + 1, '/') {
        proof {
            lemma_run_end_bounds(src, pos + 2, Run::Comment);
        }
        blank_from(src, run_end(src, pos + 2, Run::Comment))
    } else {
        false
    }
}

/// Whether every character of `text` is a decimal digit.
pub open spec fn all_digits(text: Seq<char>) -> bool {
    forall|i: int| 0 <= i < text.len() ==> is_digit(#[trigger] text[i])
}

/// Whether `text` has the shape of a numeric literal: one or more digits,
/// or one or more digits, a `.`, and one or more digits.
pub open spec fn is_decimal(text: Seq<char>) -> bool {
    ||| text.len() > 0 && all_digits(text)
    ||| exists|point: int|
        0 < point < text.len() - 1 && #[trigger] text[point] == '.' && all_digits(
            text.subrange(0, point),
        ) && all_digits(text.subrange(point + 1, text.len() as int))
}

/// What holds of each token but the last of a scan: it is not the
/// end-of-input token, an identifier spells no reserved word, and a number
/// has the shape of a numeric literal.
pub open spec fn sound(token: SpecToken) -> bool {
    match token.token_type {
        SpecTokenType::Eof => false,
        SpecTokenType::Identifier(text) => reserved_word(text) is None,
        SpecTokenType::Number(text) => is_decimal(text),
        _ => true,
    }
}

proof fn lemma_blank_rest(src: Seq<char>, pos: nat, line: nat)
    requires
        blank_from(src, pos),
    ensures
        scan_from(src, pos, line).tokens =~= Seq::empty(),
        scan_from(src, pos, line).errors =~= Seq::empty(),
    decreases src.len() - pos,
{
    if pos < src.len() {
        lemma_step_advances(src, pos, line);
        let step = scan_step(src, pos, line);
        if is_space(src[pos as int]) {
            lemma_blank_rest(src, pos + 1, step.line);
        } else {
            lemma_run_end_bounds(src, pos + 2, Run::Comment);
            lemma_blank_rest(src, run_end(src, pos + 2, Run::Comment), line);
        }
    }
}

/// A source text that holds only whitespace and comments scans to exactly
/// one token, the end of input, and no error.
pub proof fn lemma_blank_source_scans_to_eof(src: Seq<char>)
    requires
        blank_from(src, 0),
    ensures
        scan(src).tokens.len() == 1,
        scan(src).tokens[0].token_type is Eof,
        scan(src).errors.len() == 0,
{
    lemma_blank_rest(src, 0, 0);
}

proof fn lemma_digit_run(src: Seq<char>, pos: nat, end: nat)
    requires
        pos <= end <= src.len(),
        forall|i: int| pos <= i < end ==> is_digit(#[trigger] src[i]),
        end < src.len() ==> !is_digit(src[end as int]),
    ensures
        run_end(src, pos, Run::Digits) == end,
    decreases end - pos,
{
    if pos < end {
        lemma_digit_run(src, pos + 1, end);
    }
}

/// A source text that is one or more digits and nothing else scans to one
/// number token with exactly those digits, then the end of input, and no
/// error.
pub proof fn lemma_digits_scan_to_one_number(src: Seq<char>)
    requires
        src.len() > 0,
        all_digits(src),
    ensures
        scan(src).tokens == seq![
            SpecToken { token_type: SpecTokenType::Number(src), line: 0 },
            eof(0),
        ],
        scan(src).errors == Seq::<SyntaxError>::empty(),
{
    lemma_digit_run(src, 1, src.len());
    lemma_step_advances(src, 0, 0);
    let step = scan_step(src, 0, 0);
    assert(src.subrange(0, src.len() as int) =~= src);
    assert(step.tokens == seq![SpecToken { token_type: SpecTokenType::Number(src), line: 0 }]);
    assert(step.end == src.len());
    let rest = scan_from(src, step.end, step.line);
    assert(step.tokens + rest.tokens =~= step.tokens);
    assert(step_errors(step) + rest.errors =~= Seq::<SyntaxError>::empty());
    assert(scan(src).tokens =~= seq![
        SpecToken { token_type: SpecTokenType::Number(src), line: 0 },
        eof(0),
    ]);
}

proof fn lemma_run_holds(src: Seq<char>, pos: nat, run: Run)
    ensures
        forall|i: int| pos <= i < run_end(src, pos, run) ==> run.has(#[trigger] src[i]),
    decreases src.len() - pos,
{
    if pos < src.len() && run.has(src[pos as int]) {
        lemma_run_holds(src, pos + 1, run);
    }
}

proof fn lemma_step_sound(src: Seq<char>, pos: nat, line: nat)
    requires
        pos < src.len(),
    ensures
        forall|i: int|
            0 <= i < scan_step(src, pos, line).tokens.len() ==> sound(
                #[trigger] scan_step(src, pos, line).tokens[i],
            ),
{
    let step = scan_step(src, pos, line);
    let c = src[pos as int];
    if is_digit(c) {
        let whole = run_end(src, pos + 1, Run::Digits);
        lemma_run_end_bounds(src, pos + 1, Run::Digits);
        lemma_run_holds(src, pos + 1, Run::Digits);
        let front = src.subrange(pos as int, whole as int);
        assert(all_digits(front));
        if holds(src, whole, '.') && whole + 1 < src.len() && is_digit(src[whole + 1 as int]) {
            let end = run_end(src, whole + 1, Run::Digits);
            lemma_run_end_bounds(src, whole + 1, Run::Digits);
            lemma_run_holds(src, whole + 1, Run::Digits);
            let text = src.subrange(pos as int, end as int);
            let point = whole - pos;
            assert(text[point] == '.');
            assert(text.subrange(0, point) =~= front);
            assert(all_digits(text.subrange(point + 1, text.len() as int)));
            lemma_run_end_bounds(src, whole + 2, Run::Digits);
            assert(end > whole + 1);
            assert(is_decimal(text));
        } else {
            assert(is_decimal(front));
        }
    }
}

proof fn lemma_rest_sound(src: Seq<char>, pos: nat, line: nat)
    ensures
        forall|i: int|
            0 <= i < scan_from(src, pos, line).tokens.len() ==> sound(
                #[trigger] scan_from(src, pos, line).tokens[i],
            ),
    decreases src.len() - pos,
{
    if pos < src.len() {
        lemma_step_advances(src, pos, line);
        lemma_step_sound(src, pos, line);
        let step = scan_step(src, pos, line);
        lemma_rest_sound(src, step.end, step.line);
        let rest = scan_from(src, step.end, step.line);
        let all = scan_from(src, pos, line);
        assert forall|i: int| 0 <= i < all.tokens.len() implies sound(#[trigger] all.tokens[i]) by {
            if i < step.tokens.len() {
                assert(all.tokens[i] == step.tokens[i]);
            } else {
                assert(all.tokens[i] == rest.tokens[i - step.tokens.len()]);
            }
        }
    }
}

/// Every scan ends in the end-of-input token, and holds it nowhere else.
pub proof fn lemma_eof_is_last_and_only(src: Seq<char>)
    ensures
        scan(src).tokens.len() >= 1,
        scan(src).tokens.last().token_type is Eof,
        forall|i: int|
            0 <= i < scan(src).tokens.len() - 1 ==> !((#[trigger] scan(
                src,
            ).tokens[i]).token_type is Eof),
{
    lemma_rest_sound(src, 0, 0);
}

/// A word that is exactly a reserved word never scans to an identifier:
/// the text of every identifier token spells no reserved word.
pub proof fn lemma_identifier_is_no_reserved_word(src: Seq<char>, i: int)
    requires
        0 <= i < scan(src).tokens.len(),
        scan(src).tokens[i].token_type is Identifier,
    ensures
        reserved_word(scan(src).tokens[i].token_type->Identifier_0) is None,
{
    lemma_rest_sound(src, 0, 0);
}

/// The text of every number token has the shape of a numeric literal, so
/// it spells a number.
pub proof fn lemma_number_is_decimal(src: Seq<char>, i: int)
    requires
        0 <= i < scan(src).tokens.len(),
        scan(src).tokens[i].token_type is Number,
    ensures
        is_decimal(scan(src).tokens[i].token_type->Number_0),
{
    lemma_rest_sound(src, 0, 0);
}

proof fn lemma_rest_errors(src: Seq<char>, pos: nat, line: nat)
    ensures
        forall|i: int|
            0 <= i < scan_from(src, pos, line).errors.len() ==> {
                let error = #[trigger] scan_from(src, pos, line).errors[i];
                error is UnexpectedCharacter || error is UnterminatedString
            },
    decreases src.len() - pos,
{
    if pos < src.len() {
        lemma_step_advances(src, pos, line);
        let step = scan_step(src, pos, line);
        lemma_rest_errors(src, step.end, step.line);
        let rest = scan_from(src, step.end, step.line);
        let all = scan_from(src, pos, line);
        assert forall|i: int| 0 <= i < all.errors.len() implies {
            let error = #[trigger] all.errors[i];
            error is UnexpectedCharacter || error is UnterminatedString
        } by {
            if i < step_errors(step).len() {
                assert(all.errors[i] == step_errors(step)[i]);
            } else {
                assert(all.errors[i] == rest.errors[i - step_errors(step).len()]);
            }
        }
    }
}

/// The only errors a scan reports are characters it cannot use and strings
/// left open.
pub proof fn lemma_errors_of_a_scan(src: Seq<char>, i: int)
    requires
        0 <= i < scan(src).errors.len(),
    ensures
        scan(src).errors[i] is UnexpectedCharacter || scan(src).errors[i] is UnterminatedString,
{
    lemma_rest_errors(src, 0, 0);
}

/// A scanner that scans its whole source from the start holds `scan` of
/// that source.
pub proof fn lemma_fresh_scanner_scans_all(src: Seq<char>)
    ensures
        ScannerState::fresh(src).scanned().tokens == scan(src).tokens,
        ScannerState::fresh(src).scanned().line == scan(src).line,
        ScannerState::fresh(src).scanned().position == src.len(),
{
    let rest = scan_from(src, 0, 0);
    assert(Seq::<SpecToken>::empty() + rest.tokens =~= rest.tokens);
}

/// Scanning is repeatable: two scans of source texts that agree character
/// by character give the same tokens and the same errors, one by one.
pub proof fn lemma_rescan_gives_equal_tokens(first: Seq<char>, second: Seq<char>)
    requires
        first.len() == second.len(),
        forall|i: int| 0 <= i < first.len() ==> first[i] == second[i],
    ensures
        scan(first).tokens.len() == scan(second).tokens.len(),
        forall|i: int| 0 <= i < scan(first).tokens.len() ==> scan(first).tokens[i] == scan(second).tokens[i],
        scan(first).errors.len() == scan(second).errors.len(),
        forall|i: int| 0 <= i < scan(first).errors.len() ==> scan(first).errors[i] == scan(second).errors[i],
        ScannerState::fresh(first).scanned() == ScannerState::fresh(second).scanned(),
{
    assert(first =~= second);
}

} // verus!
