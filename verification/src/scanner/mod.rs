pub mod laws;
pub mod lexicon;
pub mod token;

use vstd::prelude::*;

use crate::error::{syntax_errors, Error, SyntaxError};
use crate::text::string_of;
use lexicon::{eof, holds, lead, newlines, number_step, reserved_word, run_end, scan_from, scan_step, step_errors, string_step, word_part, word_step, word_type, Lead, Run, Step};
use token::{token_views, SpecToken, SpecTokenType, Token, TokenType};

verus! {

/// Turns a source text into tokens, left to right, and collects what it
/// finds wrong on the way. It never stops early: a character it cannot use
/// is reported and passed over.
#[derive(Debug)]
pub struct Scanner {
    chars: Vec<char>,
    current: usize,
    tokens: Vec<Token>,
    line: usize,
}

/// The mathematical value of a [`Scanner`].
pub struct ScannerState {
    /// The whole source text.
    pub source: Seq<char>,
    /// How many characters of it have been scanned.
    pub position: nat,
    /// How many newlines were among them.
    pub line: nat,
    /// The tokens found so far.
    pub tokens: Seq<SpecToken>,
}

impl ScannerState {
    /// The state of a scanner that has not yet looked at `source`.
    pub open spec fn fresh(source: Seq<char>) -> ScannerState {
        ScannerState { source, position: 0, line: 0, tokens: Seq::empty() }
    }

    /// This state after one more token: `token_type` on the current line.
    pub open spec fn with_token(self, token_type: SpecTokenType) -> ScannerState {
        ScannerState { tokens: self.tokens.push(SpecToken { token_type, line: self.line }), ..self }
    }

    /// This state after the lexeme `step`.
    pub open spec fn after(self, step: Step) -> ScannerState {
        ScannerState {
            source: self.source,
            position: step.end,
            line: step.line,
            tokens: self.tokens + step.tokens,
        }
    }

    /// This state after the rest of the source has been scanned and the
    /// end-of-input token added.
    pub open spec fn scanned(self) -> ScannerState {
        let rest = scan_from(self.source, self.position, self.line);
        ScannerState {
            source: self.source,
            position: if self.position < self.source.len() {
                self.source.len()
            } else {
                self.position
            },
            line: rest.line,
            tokens: (self.tokens + rest.tokens).push(eof(rest.line)),
        }
    }
}

impl View for Scanner {
    type V = ScannerState;

    closed spec fn view(&self) -> ScannerState {
        ScannerState {
            source: self.chars@,
            position: self.current as nat,
            line: self.line as nat,
            tokens: token_views(self.tokens@),
        }
    }
}

impl Scanner {
    /// The cursor lies within the source, and no more lines were counted
    /// than characters passed. Holds of every scanner that [`Scanner::new`]
    /// made, whatever was done with it since.
    pub closed spec fn wf(&self) -> bool {
        self.line <= self.current <= self.chars.len()
    }

    /// A scanner at the start of `source`, with no tokens yet.
    pub fn new(source: &str) -> (scanner: Self)
        ensures
            scanner.wf(),
            scanner@ == ScannerState::fresh(source@),
    {
        let mut chars: Vec<char> = Vec::new();
        for c in it: source.chars()
            invariant
                chars@ == it.seq().take(it.index()),
        {
            chars.push(c);
        }
        let scanner = Self { chars, current: 0, tokens: Vec::new(), line: 0 };
        proof {
            assert(scanner@.tokens =~= Seq::<SpecToken>::empty());
            assert(scanner@.source =~= source@);
        }
        scanner
    }

    /// Scans what is left of the source, then adds the end-of-input token.
    /// Returns the errors met, in the order met.
    pub fn scan_tokens(&mut self) -> (errors: Vec<Error>)
        requires
            old(self).wf(),
        ensures
            final(self).wf(),
            final(self)@ == old(self)@.scanned(),
            errors@ == syntax_errors(
                scan_from(old(self)@.source, old(self)@.position, old(self)@.line).errors,
            ),
    {
        let mut errors: Vec<Error> = Vec::new();
        let ghost before = self@;
        let ghost mut found: Seq<SyntaxError> = Seq::empty();
        while self.current < self.chars.len()
            invariant
                self.wf(),
                self@.source == before.source,
                self@.position <= self@.source.len(),
                errors@ == syntax_errors(found),
                ({
                    let all = scan_from(before.source, before.position, before.line);
                    let rest = scan_from(self@.source, self@.position, self@.line);
                    &&& before.tokens + all.tokens == self@.tokens + rest.tokens
                    &&& all.errors == found + rest.errors
                    &&& all.line == rest.line
                }),
            decreases self@.source.len() - self@.position,
        {
            let ghost here = self@;
            let ghost step = scan_step(here.source, here.position, here.line);
            proof {
                lexicon::lemma_step_advances(here.source, here.position, here.line);
            }
            let scanned = self.scan_token();
            proof {
                let rest = scan_from(here.source, step.end, step.line);
                assert((here.tokens + step.tokens) + rest.tokens =~= here.tokens + (step.tokens
                    + rest.tokens));
                assert((found + step_errors(step)) + rest.errors =~= found + (step_errors(step)
                    + rest.errors));
                assert(syntax_errors(found + step_errors(step)) =~= syntax_errors(found)
                    + syntax_errors(step_errors(step)));
            }
            if let Err(e) = scanned {
                errors.push(e);
                proof {
                    assert(syntax_errors(step_errors(step)) =~= seq![e]);
                }
            } else {
                proof {
                    assert(syntax_errors(step_errors(step)) =~= Seq::<Error>::empty());
                }
            }
            proof {
                found = found + step_errors(step);
            }
        }
        proof {
            assert(self@.tokens + Seq::<SpecToken>::empty() =~= self@.tokens);
            assert(found + Seq::<SyntaxError>::empty() =~= found);
        }
        self.add_token(TokenType::Eof);
        errors
    }

    /// The tokens found so far, in the order found.
    pub fn tokens(&self) -> (tokens: &[Token])
        ensures
            token_views(tokens@) == self@.tokens,
    {
        self.tokens.as_slice()
    }

    /// Scans one lexeme, if any of the source is left: adds its tokens, or
    /// reports what is wrong with it.
    fn scan_token(&mut self) -> (scanned: Result<(), Error>)
        requires
            old(self).wf(),
        ensures
            final(self).wf(),
            old(self)@.position >= old(self)@.source.len() ==> final(self)@ == old(self)@
                && scanned is Ok,
            old(self)@.position < old(self)@.source.len() ==> ({
                let step = scan_step(old(self)@.source, old(self)@.position, old(self)@.line);
                &&& final(self)@ == old(self)@.after(step)
                &&& match step.error {
                    Some(error) => scanned == Err::<(), Error>(Error::Syntax(error)),
                    None => scanned is Ok,
                }
            }),
    {
        if self.current >= self.chars.len() {
            return Ok(());
        }
        let ghost before = self@;
        let c = self.chars[self.current];
        self.current += 1;
        proof {
            assert(before.tokens + Seq::<SpecToken>::empty() =~= before.tokens);
            assert forall|t: SpecToken| before.tokens + seq![t] =~= #[trigger] before.tokens.push(t) by {}
        }
        match c {
            '(' => self.add_token(TokenType::LeftParen),
            ')' => self.add_token(TokenType::RightParen),
            '{' => self.add_token(TokenType::LeftBrace),
            '}' => self.add_token(TokenType::RightBrace),
            ',' => self.add_token(TokenType::Comma),
            '.' => self.add_token(TokenType::Dot),
            '-' => self.add_token(TokenType::Minus),
            '+' => self.add_token(TokenType::Plus),
            ';' => self.add_token(TokenType::Semicolon),
            '*' => self.add_token(TokenType::Star),
            '!' => {
                let token_type = if self.is_match('=') {
                    TokenType::BangEqual
                } else {
                    TokenType::Bang
                };
                self.add_token(token_type);
            },
            '=' => {
                let token_type = if self.is_match('=') {
                    TokenType::EqualEqual
                } else {
                    TokenType::Equal
                };
                self.add_token(token_type);
            },
            '<' => {
                let token_type = if self.is_match('=') {
                    TokenType::LessEqual
                } else {
                    TokenType::Less
                };
                self.add_token(token_type);
            },
            '>' => {
                let token_type = if self.is_match('=') {
                    TokenType::GreaterEqual
                } else {
                    TokenType::Greater
                };
                self.add_token(token_type);
            },
            '/' => {
                if self.is_match('/') {
                    self.skip_line();
                } else {
                    self.add_token(TokenType::Slash);
                }
            },
            ' ' | '\r' | '\t' => {},
            '\n' => {
                self.line += 1;
            },
            '"' => {
                return self.string();
            },
            _ => match lead_of(c, c.is_alphabetic()) {
                Lead::Number => {
                    return self.number();
                },
                Lead::Word => self.identifier(),
                Lead::Stray => {
                    return Err(
                        Error::Syntax(
                            SyntaxError::UnexpectedCharacter { line: self.line, character: c },
                        ),
                    );
                },
            },
        }
        Ok(())
    }

    /// Adds a token of type `token_type` on the current line.
    fn add_token(&mut self, token_type: TokenType)
        requires
            old(self).wf(),
        ensures
            final(self).wf(),
            final(self)@ == old(self)@.with_token(token_type@),
    {
        let ghost tokens = self.tokens@;
        let token = Token::new(token_type, self.line);
        self.tokens.push(token);
        proof {
            assert(token_views(tokens.push(token)) =~= token_views(tokens).push(token@));
        }
    }

    /// Passes over the next character if it is `expected`, and says whether
    /// it did.
    fn is_match(&mut self, expected: char) -> (matched: bool)
        requires
            old(self).wf(),
        ensures
            final(self).wf(),
            matched == holds(old(self)@.source, old(self)@.position, expected),
            final(self)@ == (ScannerState {
                position: if matched {
                    old(self)@.position + 1
                } else {
                    old(self)@.position
                },
                ..old(self)@
            }),
    {
        if self.current < self.chars.len() && self.chars[self.current] == expected {
            self.current += 1;
            return true;
        }
        false
    }

    /// Passes over the rest of the line, up to but not including its
    /// newline.
    fn skip_line(&mut self)
        requires
            old(self).wf(),
        ensures
            final(self).wf(),
            final(self)@ == (ScannerState {
                position: run_end(old(self)@.source, old(self)@.position, Run::Comment),
                ..old(self)@
            }),
    {
        let ghost before = self@;
        while self.current < self.chars.len() && self.chars[self.current] != '\n'
            invariant
                self@ == (ScannerState { position: self@.position, ..before }),
                before.position <= self@.position <= self@.source.len(),
                self.wf(),
                run_end(self@.source, self@.position, Run::Comment) == run_end(
                    before.source,
                    before.position,
                    Run::Comment,
                ),
            decreases self@.source.len() - self@.position,
        {
            self.current += 1;
        }
    }

    /// The source text from `start` up to the cursor.
    fn lexeme(&self, start: usize) -> (text: String)
        requires
            self.wf(),
            start <= self@.position,
        ensures
            text@ == self@.source.subrange(start as int, self@.position as int),
    {
        string_of(vstd::slice::slice_subrange(self.chars.as_slice(), start, self.current))
    }

    /// Scans a string literal whose opening quote has just been passed.
    fn string(&mut self) -> (scanned: Result<(), Error>)
        requires
            old(self).wf(),
        ensures
            final(self).wf(),
            ({
                let step = string_step(old(self)@.source, old(self)@.position, old(self)@.line);
                &&& final(self)@ == old(self)@.after(step)
                &&& match step.error {
                    Some(error) => scanned == Err::<(), Error>(Error::Syntax(error)),
                    None => scanned is Ok,
                }
            }),
    {
        let ghost before = self@;
        let start = self.current;
        while self.current < self.chars.len() && self.chars[self.current] != '"'
            invariant
                self@.source == before.source,
                self@.tokens == before.tokens,
                before.position <= self@.position <= self@.source.len(),
                self.wf(),
                self@.line == before.line + newlines(before.source, before.position, self@.position),
                run_end(self@.source, self@.position, Run::Quoted) == run_end(
                    before.source,
                    before.position,
                    Run::Quoted,
                ),
            decreases self@.source.len() - self@.position,
        {
            let c = self.chars[self.current];
            self.current += 1;
            if c == '\n' {
                self.line += 1;
            }
        }
        proof {
            assert(before.tokens + Seq::<SpecToken>::empty() =~= before.tokens);
            assert forall|t: SpecToken| before.tokens + seq![t] =~= #[trigger] before.tokens.push(t) by {}
        }
        if self.current >= self.chars.len() {
            return Err(Error::Syntax(SyntaxError::UnterminatedString { line: self.line }));
        }
        let text = self.lexeme(start);
        self.current += 1;
        self.add_token(TokenType::String(text));
        Ok(())
    }

    /// Passes over the digits at the cursor.
    fn digits(&mut self)
        requires
            old(self).wf(),
        ensures
            final(self).wf(),
            final(self)@ == (ScannerState {
                position: run_end(old(self)@.source, old(self)@.position, Run::Digits),
                ..old(self)@
            }),
            old(self)@.position <= final(self)@.position <= final(self)@.source.len(),
    {
        let ghost before = self@;
        while self.current < self.chars.len() && self.chars[self.current] >= '0'
            && self.chars[self.current] <= '9'
            invariant
                self@ == (ScannerState { position: self@.position, ..before }),
                before.position <= self@.position <= self@.source.len(),
                self.wf(),
                run_end(self@.source, self@.position, Run::Digits) == run_end(
                    before.source,
                    before.position,
                    Run::Digits,
                ),
            decreases self@.source.len() - self@.position,
        {
            self.current += 1;
        }
    }

    /// Scans a numeric literal whose first digit has just been passed. A
    /// literal of this shape always spells a number, so this never fails.
    fn number(&mut self) -> (scanned: Result<(), Error>)
        requires
            old(self).wf(),
            old(self)@.position >= 1,
        ensures
            final(self).wf(),
            final(self)@ == old(self)@.after(
                number_step(
                    old(self)@.source,
                    (old(self)@.position - 1) as nat,
                    old(self)@.line,
                ),
            ),
            scanned is Ok,
    {
        let ghost before = self@;
        let start = self.current - 1;
        self.digits();
        proof {
            assert forall|t: SpecToken| before.tokens + seq![t] =~= #[trigger] before.tokens.push(t) by {}
            assert forall|t: SpecToken, u: SpecToken| before.tokens + seq![t, u]
                =~= #[trigger] before.tokens.push(t).push(u) by {}
        }
        if self.current < self.chars.len() && self.chars[self.current] == '.' {
            let whole = self.lexeme(start);
            self.current += 1;
            if self.current < self.chars.len() && self.chars[self.current] >= '0'
                && self.chars[self.current] <= '9' {
                self.digits();
                let text = self.lexeme(start);
                self.add_token(TokenType::Number(text));
                return Ok(());
            }
            self.add_token(TokenType::Number(whole));
            self.add_token(TokenType::Dot);
            return Ok(());
        }
        let text = self.lexeme(start);
        self.add_token(TokenType::Number(text));
        Ok(())
    }

    /// Scans an identifier or reserved word whose first character has just
    /// been passed.
    fn identifier(&mut self)
        requires
            old(self).wf(),
            old(self)@.position >= 1,
        ensures
            final(self).wf(),
            final(self)@ == old(self)@.after(
                word_step(old(self)@.source, (old(self)@.position - 1) as nat, old(self)@.line),
            ),
    {
        let ghost before = self@;
        let start = self.current - 1;
        while self.current < self.chars.len() && is_word_part(
            self.chars[self.current],
            self.chars[self.current].is_alphanumeric(),
        )
            invariant
                self@ == (ScannerState { position: self@.position, ..before }),
                before.position <= self@.position <= self@.source.len(),
                self.wf(),
                run_end(self@.source, self@.position, Run::Word) == run_end(
                    before.source,
                    before.position,
                    Run::Word,
                ),
            decreases self@.source.len() - self@.position,
        {
            self.current += 1;
        }
        proof {
            assert forall|t: SpecToken| before.tokens + seq![t] =~= #[trigger] before.tokens.push(t) by {}
        }
        let word = vstd::slice::slice_subrange(self.chars.as_slice(), start, self.current);
        self.add_token(word_token_type(word));
    }
}

/// What `c` opens, where `is_alphabetic` says whether `c` is alphabetic.
pub fn lead_of(c: char, is_alphabetic: bool) -> (opens: Lead)
    ensures
        opens == lead(c, is_alphabetic),
{
    if c >= '0' && c <= '9' {
        Lead::Number
    } else if is_alphabetic || c == '_' {
        Lead::Word
    } else {
        Lead::Stray
    }
}

/// Whether a word goes on with `c`, where `is_alphanumeric` says whether
/// `c` is alphanumeric.
pub fn is_word_part(c: char, is_alphanumeric: bool) -> (part: bool)
    ensures
        part == word_part(c, is_alphanumeric),
{
    is_alphanumeric || c == '_'
}

/// The token type of the word `word`: its reserved word if it spells one,
/// an identifier with that text otherwise.
pub fn word_token_type(word: &[char]) -> (token_type: TokenType)
    ensures
        token_type@ == word_type(word@),
{
    match reserved_word_of(word) {
        Some(reserved) => reserved,
        None => TokenType::Identifier(string_of(word)),
    }
}

/// The token type of the reserved word that `word` spells, if it spells
/// one. The match is exact and case-sensitive.
pub fn reserved_word_of(word: &[char]) -> (found: Option<TokenType>)
    ensures
        match found {
            Some(token_type) => reserved_word(word@) == Some(token_type@),
            None => reserved_word(word@) is None,
        },
{
    if spells(word, &['a', 'n', 'd']) {
        Some(TokenType::And)
    } else if spells(word, &['c', 'l', 'a', 's', 's']) {
        Some(TokenType::Class)
    } else if spells(word, &['e', 'l', 's', 'e']) {
        Some(TokenType::Else)
    } else if spells(word, &['f', 'a', 'l', 's', 'e']) {
        Some(TokenType::False)
    } else if spells(word, &['f', 'o', 'r']) {
        Some(TokenType::For)
    } else if spells(word, &['f', 'u', 'n']) {
        Some(TokenType::Fun)
    } else if spells(word, &['i', 'f']) {
        Some(TokenType::If)
    } else if spells(word, &['n', 'i', 'l']) {
        Some(TokenType::Nil)
    } else if spells(word, &['o', 'r']) {
        Some(TokenType::Or)
    } else if spells(word, &['p', 'r', 'i', 'n', 't']) {
        Some(TokenType::Print)
    } else if spells(word, &['r', 'e', 't', 'u', 'r', 'n']) {
        Some(TokenType::Return)
    } else if spells(word, &['s', 'u', 'p', 'e', 'r']) {
        Some(TokenType::Super)
    } else if spells(word, &['t', 'h', 'i', 's']) {
        Some(TokenType::This)
    } else if spells(word, &['t', 'r', 'u', 'e']) {
        Some(TokenType::True)
    } else if spells(word, &['v', 'a', 'r']) {
        Some(TokenType::Var)
    } else if spells(word, &['w', 'h', 'i', 'l', 'e']) {
        Some(TokenType::While)
    } else {
        None
    }
}

/// Whether `word` and `other` hold the same characters.
fn spells(word: &[char], other: &[char]) -> (same: bool)
    ensures
        same == (word@ =~= other@),
{
    if word.len() != other.len() {
        return false;
    }
    let mut i: usize = 0;
    while i < word.len()
        invariant
            word@.len() == other@.len(),
            i <= word@.len(),
            forall|j: int| 0 <= j < i ==> word@[j] == other@[j],
        decreases word.len() - i,
    {
        if word[i] != other[i] {
            return false;
        }
        i += 1;
    }
    true
}

} // verus!
