//! The scanner: one pass over the source text, from left to right, with one
//! character of lookahead.

use vstd::prelude::*;
use vstd::string::{StrSliceExecFns, StringExecFns};
use crate::chars;
use crate::keywords::keyword_kind;
use crate::lexis::{
    char_at, emitted, end_of_input, fits_double, lemma_run_is_maximal, lemma_step_advances,
    line_at, literal_of, number_width, rejected, reports_from, run_len, step, tokens_from,
    word_kind, Outcome, Run,
};
use crate::numeral::fits_double_text;
use crate::token::{views, Literal, Token, TokenType, TokenView};
use crate::utils::errors::{handle_error, ErrorSink, LexicalError, ReportView};

verus! {

/// A cursor into a source text, with the tokens and reports of the part that
/// lies behind it.
pub struct Scanner {
    current: usize,
    /// The number of characters in `source`.
    length: usize,
    line: u64,
    source: String,
    start: usize,
    tokens: Vec<Token>,
    sink: ErrorSink,
}

impl Scanner {
    /// The text that is scanned.
    pub closed spec fn source(&self) -> Seq<char> {
        self.source@
    }

    /// The index of the next unread character.
    pub closed spec fn position(&self) -> int {
        self.current as int
    }

    /// The tokens produced so far.
    pub closed spec fn produced(&self) -> Seq<TokenView> {
        views(self.tokens@)
    }

    /// The errors reported so far.
    pub closed spec fn reported(&self) -> Seq<ReportView> {
        self.sink@
    }

    /// Whether any error has been reported.
    pub closed spec fn flagged(&self) -> bool {
        self.sink.had_error
    }

    /// The cursor lies inside the text, behind the start of the current lexeme,
    /// and the line counter has counted the newlines that lie behind it.
    pub closed spec fn wf(&self) -> bool {
        &&& self.length == self.source@.len()
        &&& self.start <= self.current <= self.source@.len()
        &&& self.line == line_at(self.source@, self.current as int)
    }

    /// `self` is `before` with the cursor moved on to `to`, and nothing else
    /// changed.
    spec fn moved(&self, before: &Scanner, to: int) -> bool {
        &&& self.wf()
        &&& self.current == to
        &&& self.start == before.start
        &&& self.source == before.source
        &&& self.length == before.length
        &&& self.tokens == before.tokens
        &&& self.sink == before.sink
    }

    /// The cursor of `self` is where that of `before` is, on the same text.
    spec fn moved_on(&self, before: &Scanner) -> bool {
        &&& self.wf()
        &&& self.current == before.current
        &&& self.start == before.start
        &&& self.source == before.source
    }

    /// The text between the start of the current lexeme and the cursor.
    spec fn lexeme(&self) -> Seq<char> {
        self.source@.subrange(self.start as int, self.current as int)
    }

    /// A scanner at the start of `source`, on line 1.
    pub fn new(source: String) -> (scanner: Scanner)
        ensures
            scanner.wf(),
            scanner.source() == source@,
            scanner.position() == 0,
            scanner.produced() == Seq::<TokenView>::empty(),
            scanner.reported() == Seq::<ReportView>::empty(),
            !scanner.flagged(),
    {
        let length = source.as_str().unicode_len();
        let scanner = Scanner {
            current: 0,
            length,
            line: 1,
            source,
            start: 0,
            tokens: Vec::new(),
            sink: ErrorSink::new(),
        };
        assert(scanner.produced() =~= Seq::<TokenView>::empty());
        scanner
    }

    /// Scans what is left of the text and closes the tokens with the
    /// end-of-input token. On a new scanner that is the whole text.
    pub fn scan_tokens(&mut self) -> (tokens: &Vec<Token>)
        requires
            old(self).wf(),
        ensures
            final(self).wf(),
            final(self).source() == old(self).source(),
            final(self).position() == old(self).source().len(),
            final(self).produced() == old(self).produced() + tokens_from(
                old(self).source(),
                old(self).position(),
            ),
            final(self).reported() == old(self).reported() + reports_from(
                old(self).source(),
                old(self).position(),
            ),
            final(self).flagged() == (old(self).flagged() || reports_from(
                old(self).source(),
                old(self).position(),
            ).len() > 0),
            views(tokens@) == final(self).produced(),
            tokens@.len() >= 1,
            tokens@.last()@ == end_of_input(old(self).source()),
    {
        let ghost before = *self;
        let ghost src = self.source@;
        while !self.is_at_end()
            invariant
                self.wf(),
                self.source@ == src,
                before.source@ == src,
                before.current <= self.current,
                views(self.tokens@) + tokens_from(src, self.current as int) == views(
                    before.tokens@,
                ) + tokens_from(src, before.current as int),
                self.sink@ + reports_from(src, self.current as int) == before.sink@
                    + reports_from(src, before.current as int),
                (self.sink.had_error || reports_from(src, self.current as int).len() > 0) == (
                before.sink.had_error || reports_from(src, before.current as int).len() > 0),
            decreases src.len() - self.current,
        {
            let ghost at = self.current as int;
            let ghost had = *self;
            proof {
                lemma_step_advances(src, at);
            }
            // We are at the beginning of the next lexeme here.
            self.start = self.current;
            self.scan_token();
            assert(views(self.tokens@) + tokens_from(src, self.current as int) =~= views(
                had.tokens@,
            ) + tokens_from(src, at));
            assert(self.sink@ + reports_from(src, self.current as int) =~= had.sink@
                + reports_from(src, at));
        }

        let eof = Token {
            lexeme: String::new(),
            line: self.line,
            literal: Literal::Absent,
            token_type: TokenType::EOF,
        };
        assert(eof@ == end_of_input(src));
        self.tokens.push(eof);
        assert(self.tokens@.last()@ == end_of_input(src));
        assert(views(self.tokens@) =~= views(before.tokens@) + tokens_from(
            src,
            before.current as int,
        ));
        assert(self.sink@ =~= before.sink@ + reports_from(src, before.current as int));
        &self.tokens
    }

    /// The tokens produced so far.
    pub fn tokens(&self) -> (tokens: &Vec<Token>)
        ensures
            views(tokens@) == self.produced(),
    {
        &self.tokens
    }

    /// The errors reported so far, with the flag that says whether there are
    /// any.
    pub fn errors(&self) -> (sink: &ErrorSink)
        ensures
            sink@ == self.reported(),
            sink.had_error == self.flagged(),
    {
        &self.sink
    }

    /// Takes one step: scans the lexeme that begins at the cursor.
    fn scan_token(&mut self)
        requires
            old(self).wf(),
            old(self).start == old(self).current,
            old(self).current < old(self).source@.len(),
        ensures
            final(self).wf(),
            final(self).source == old(self).source,
            final(self).current == old(self).current + step(
                old(self).source@,
                old(self).current as int,
            ).width,
            views(final(self).tokens@) == views(old(self).tokens@) + emitted(
                old(self).source@,
                old(self).current as int,
            ),
            final(self).sink@ == old(self).sink@ + rejected(
                old(self).source@,
                old(self).current as int,
            ),
            final(self).sink.had_error == (old(self).sink.had_error || rejected(
                old(self).source@,
                old(self).current as int,
            ).len() > 0),
    {
        let ghost src = self.source@;
        let ghost at = self.current as int;
        let line = self.line;
        let c: char = self.advance();

        let outcome = match c {
            // single character tokens
            '(' => Outcome::Emit(TokenType::LeftParen),
            ')' => Outcome::Emit(TokenType::RightParen),
            '{' => Outcome::Emit(TokenType::LeftBrace),
            '}' => Outcome::Emit(TokenType::RightBrace),
            ',' => Outcome::Emit(TokenType::Comma),
            '.' => Outcome::Emit(TokenType::Dot),
            '-' => Outcome::Emit(TokenType::Minus),
            '+' => Outcome::Emit(TokenType::Plus),
            ';' => Outcome::Emit(TokenType::Semicolon),
            '*' => Outcome::Emit(TokenType::Star),
            // single or multi-character tokens
            '!' => {
                if self.advance_if_matched('=') {
                    Outcome::Emit(TokenType::BangEqual)
                } else {
                    Outcome::Emit(TokenType::Bang)
                }
            },
            '=' => {
                if self.advance_if_matched('=') {
                    Outcome::Emit(TokenType::EqualEqual)
                } else {
                    Outcome::Emit(TokenType::Equal)
                }
            },
            '<' => {
                if self.advance_if_matched('=') {
                    Outcome::Emit(TokenType::LessEqual)
                } else {
                    Outcome::Emit(TokenType::Less)
                }
            },
            '>' => {
                if self.advance_if_matched('=') {
                    Outcome::Emit(TokenType::GreaterEqual)
                } else {
                    Outcome::Emit(TokenType::Greater)
                }
            },
            '/' => {
                if self.advance_if_matched('/') {
                    // a comment goes on to the end of the line
                    self.advance_run(Run::Comment);
                    Outcome::Skip
                } else {
                    Outcome::Emit(TokenType::Slash)
                }
            },
            // whitespace and newlines
            ' ' | '\r' | '\t' | '\n' => Outcome::Skip,
            // strings
            '"' => self.string(),
            _ => {
                if chars::is_digit(c) {
                    self.number()
                } else if chars::is_alpha(c) {
                    Outcome::Emit(self.identifier())
                } else {
                    Outcome::Reject(LexicalError::UnexpectedCharacter)
                }
            },
        };
        assert(outcome == step(src, at).outcome);
        assert(self.current == at + step(src, at).width);
        assert(outcome == Outcome::Emit(TokenType::String) ==> self.start + 2 <= self.current);
        self.conclude(outcome, line);
    }

    /// Ends a step: adds the token of the lexeme that lies between the start
    /// and the cursor, or reports it, as the outcome says.
    fn conclude(&mut self, outcome: Outcome, line: u64)
        requires
            old(self).wf(),
            old(self).start < old(self).current,
            outcome == Outcome::Emit(TokenType::String) ==> old(self).start + 2 <= old(
                self,
            ).current,
        ensures
            final(self).moved_on(old(self)),
            views(final(self).tokens@) == views(old(self).tokens@) + (match outcome {
                Outcome::Emit(kind) => seq![
                    TokenView {
                        kind,
                        lexeme: old(self).lexeme(),
                        line,
                        literal: literal_of(kind, old(self).lexeme()),
                    },
                ],
                _ => Seq::empty(),
            }),
            final(self).sink@ == old(self).sink@ + (match outcome {
                Outcome::Reject(error) => seq![
                    ReportView { line, location: Seq::empty(), message: error.message_spec() },
                ],
                _ => Seq::empty(),
            }),
            final(self).sink.had_error == (old(self).sink.had_error || outcome is Reject),
    {
        match outcome {
            Outcome::Emit(tt) => {
                let text = self.source.as_str();
                let lexeme = String::from_str(text.substring_char(self.start, self.current));
                let literal = match tt {
                    TokenType::Number => Literal::Number(lexeme.clone()),
                    TokenType::String => Literal::String(
                        String::from_str(text.substring_char(self.start + 1, self.current - 1)),
                    ),
                    _ => Literal::Absent,
                };
                let token = Token { line, literal, lexeme, token_type: tt };
                let ghost view = token@;
                proof {
                    let whole = self.lexeme();
                    if tt == TokenType::String {
                        assert(self.source@.subrange(self.start + 1, self.current - 1)
                            =~= whole.subrange(1, whole.len() - 1));
                    }
                    assert(view.literal == literal_of(tt, whole));
                }
                self.tokens.push(token);
                assert(views(self.tokens@) =~= views(old(self).tokens@) + seq![view]);
                assert(self.sink@ =~= old(self).sink@ + Seq::<ReportView>::empty());
            },
            Outcome::Skip => {
                assert(views(self.tokens@) =~= views(old(self).tokens@) + Seq::<
                    TokenView,
                >::empty());
                assert(self.sink@ =~= old(self).sink@ + Seq::<ReportView>::empty());
            },
            Outcome::Reject(error) => {
                handle_error(&mut self.sink, error.message(), line);
                assert(views(self.tokens@) =~= views(old(self).tokens@) + Seq::<
                    TokenView,
                >::empty());
                assert(self.sink@ =~= old(self).sink@ + seq![
                    ReportView { line, location: Seq::empty(), message: error.message_spec() },
                ]);
            },
        }
    }

    /// Scans the rest of a word, whose first character lies behind the cursor.
    fn identifier(&mut self) -> (kind: TokenType)
        requires
            old(self).wf(),
            old(self).start + 1 == old(self).current,
        ensures
            final(self).moved(
                old(self),
                old(self).current + run_len(old(self).source@, old(self).current as int, Run::Word),
            ),
            kind == word_kind(
                old(self).source@.subrange(old(self).start as int, final(self).current as int),
            ),
    {
        self.advance_run(Run::Word);
        let text = self.source.as_str().substring_char(self.start, self.current);
        match keyword_kind(text) {
            Some(kind) => kind,
            None => TokenType::Identifier,
        }
    }

    /// Scans the rest of a number, whose first digit lies behind the cursor.
    fn number(&mut self) -> (outcome: Outcome)
        requires
            old(self).wf(),
            old(self).start + 1 == old(self).current,
        ensures
            final(self).moved(
                old(self),
                old(self).start + number_width(old(self).source@, old(self).start as int),
            ),
            outcome == (if fits_double(
                old(self).source@.subrange(old(self).start as int, final(self).current as int),
            ) {
                Outcome::Emit(TokenType::Number)
            } else {
                Outcome::Reject(LexicalError::InvalidNumber)
            }),
    {
        self.advance_run(Run::Digits);

        // look for a fractional part
        if self.peek() == '.' && chars::is_digit(self.peek_next()) {
            // consume the "."
            self.advance();
            self.advance_run(Run::Digits);
        }
        let numeral = self.source.as_str().substring_char(self.start, self.current);
        if fits_double_text(numeral) {
            Outcome::Emit(TokenType::Number)
        } else {
            Outcome::Reject(LexicalError::InvalidNumber)
        }
    }

    /// Scans the rest of a string, whose opening quote lies behind the cursor,
    /// up to and with the closing quote.
    fn string(&mut self) -> (outcome: Outcome)
        requires
            old(self).wf(),
        ensures
            final(self).wf(),
            final(self).start == old(self).start,
            final(self).source == old(self).source,
            final(self).tokens == old(self).tokens,
            final(self).sink == old(self).sink,
            ({
                let inner = run_len(old(self).source@, old(self).current as int, Run::Quoted);
                if old(self).current + inner < old(self).source@.len() {
                    &&& final(self).current == old(self).current + inner + 1
                    &&& outcome == Outcome::Emit(TokenType::String)
                } else {
                    &&& final(self).current == old(self).current + inner
                    &&& outcome == Outcome::Reject(LexicalError::UnterminatedString)
                }
            }),
    {
        proof {
            lemma_run_is_maximal(self.source@, self.current as int, Run::Quoted);
        }
        // strings may go over several lines
        self.advance_run(Run::Quoted);
        if self.is_at_end() {
            Outcome::Reject(LexicalError::UnterminatedString)
        } else {
            // the closing quote
            self.advance();
            Outcome::Emit(TokenType::String)
        }
    }

    /// Moves the cursor over the longest run of the given kind.
    fn advance_run(&mut self, run: Run)
        requires
            old(self).wf(),
        ensures
            final(self).moved(
                old(self),
                old(self).current + run_len(old(self).source@, old(self).current as int, run),
            ),
    {
        let ghost before = *self;
        while self.continues(run)
            invariant
                self.wf(),
                before.wf(),
                before.current <= self.current,
                self.moved(&before, self.current as int),
                self.current + run_len(self.source@, self.current as int, run) == before.current
                    + run_len(before.source@, before.current as int, run),
            decreases self.source@.len() - self.current,
        {
            self.advance();
        }
    }

    /// Whether the next character continues a run of the given kind.
    fn continues(&self, run: Run) -> (b: bool)
        requires
            self.wf(),
        ensures
            b == (self.current < self.source@.len() && crate::lexis::belongs(
                run,
                self.source@[self.current as int],
            )),
    {
        !self.is_at_end() && chars::belongs(run, self.source.as_str().get_char(self.current))
    }

    /// Moves the cursor over the next character if it is the expected one.
    fn advance_if_matched(&mut self, expected: char) -> (matched: bool)
        requires
            old(self).wf(),
            expected != '\0',
        ensures
            matched == (char_at(old(self).source@, old(self).current as int) == expected),
            final(self).moved(
                old(self),
                if matched {
                    old(self).current + 1
                } else {
                    old(self).current as int
                },
            ),
    {
        if self.is_at_end() {
            return false;
        }
        if self.source.as_str().get_char(self.current) != expected {
            return false;
        }
        self.advance();
        true
    }

    /// The next character, or NUL at the end of the text.
    fn peek(&self) -> (c: char)
        requires
            self.wf(),
        ensures
            c == char_at(self.source@, self.current as int),
    {
        if self.is_at_end() {
            '\0'
        } else {
            self.source.as_str().get_char(self.current)
        }
    }

    /// The character behind the next, or NUL where the text has none.
    fn peek_next(&self) -> (c: char)
        requires
            self.wf(),
        ensures
            c == char_at(self.source@, self.current + 1),
    {
        if self.length - self.current <= 1 {
            '\0'
        } else {
            self.source.as_str().get_char(self.current + 1)
        }
    }

    fn is_at_end(&self) -> (b: bool)
        requires
            self.wf(),
        ensures
            b == (self.current >= self.source@.len()),
    {
        self.current >= self.length
    }

    /// Moves the cursor over the next character and counts it if it is a
    /// newline.
    fn advance(&mut self) -> (c: char)
        requires
            old(self).wf(),
            old(self).current < old(self).source@.len(),
        ensures
            final(self).moved(old(self), old(self).current + 1),
            c == old(self).source@[old(self).current as int],
    {
        let c = self.source.as_str().get_char(self.current);
        self.current = self.current + 1;
        if c == '\n' && self.line < u64::MAX {
            self.line = self.line + 1;
        }
        c
    }
}

} // verus!
