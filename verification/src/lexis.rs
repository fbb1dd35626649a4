//! The lexical grammar, as functions of the source text.
//!
//! A scan walks the text from left to right. At each position that it reaches,
//! [`step`] says how many characters the next piece takes and what becomes of
//! it: a token, nothing, or a report. [`tokens_from`] and [`reports_from`]
//! collect what the steps from a position to the end of the text give.

use vstd::prelude::*;
use crate::token::{LiteralView, TokenType, TokenView};
use crate::utils::errors::{LexicalError, ReportView};

verus! {

/// `0` to `9`.
pub open spec fn is_digit(c: char) -> bool {
    '0' <= c && c <= '9'
}

/// An ASCII letter or the underscore.
pub open spec fn is_alpha(c: char) -> bool {
    ('A' <= c && c <= 'Z') || ('a' <= c && c <= 'z') || c == '_'
}

pub open spec fn is_alpha_numeric(c: char) -> bool {
    is_alpha(c) || is_digit(c)
}

/// Space, carriage return, tab or newline.
pub open spec fn is_blank(c: char) -> bool {
    c == ' ' || c == '\r' || c == '\t' || c == '\n'
}

/// The character at `pos`, or NUL where the text has none.
pub open spec fn char_at(src: Seq<char>, pos: int) -> char {
    if 0 <= pos < src.len() {
        src[pos]
    } else {
        '\0'
    }
}

/// The kinds of character run that a token or a comment is made of.
#[derive(Clone, Copy, Debug, PartialEq, Eq, Structural)]
pub enum Run {
    /// The digit zero.
    Zeros,
    /// Digits.
    Digits,
    /// Letters, digits and underscores.
    Word,
    /// Anything up to the end of the line.
    Comment,
    /// Anything up to a double quote.
    Quoted,
}

/// Whether `c` continues a run of the given kind.
pub open spec fn belongs(run: Run, c: char) -> bool {
    match run {
        Run::Zeros => c == '0',
        Run::Digits => is_digit(c),
        Run::Word => is_alpha_numeric(c),
        Run::Comment => c != '\n',
        Run::Quoted => c != '"',
    }
}

/// The length of the longest run of the given kind that starts at `pos`.
pub open spec fn run_len(src: Seq<char>, pos: int, run: Run) -> nat
    decreases src.len() - pos,
{
    if 0 <= pos < src.len() && belongs(run, src[pos]) {
        1 + run_len(src, pos + 1, run)
    } else {
        0
    }
}

/// The number of newlines among the first `pos` characters.
pub open spec fn newlines_before(src: Seq<char>, pos: int) -> nat
    decreases pos,
{
    if pos <= 0 {
        0
    } else {
        newlines_before(src, pos - 1) + if src[pos - 1] == '\n' {
            1nat
        } else {
            0nat
        }
    }
}

/// The line on which position `pos` lies, counted from 1. The count stops at
/// the largest `u64`.
pub open spec fn line_at(src: Seq<char>, pos: int) -> u64 {
    let line = 1 + newlines_before(src, pos);
    if line > u64::MAX {
        u64::MAX
    } else {
        line as u64
    }
}

/// The ten characters that are a token by themselves wherever they stand.
pub open spec fn punctuation(c: char) -> Option<TokenType> {
    if c == '(' {
        Some(TokenType::LeftParen)
    } else if c == ')' {
        Some(TokenType::RightParen)
    } else if c == '{' {
        Some(TokenType::LeftBrace)
    } else if c == '}' {
        Some(TokenType::RightBrace)
    } else if c == ',' {
        Some(TokenType::Comma)
    } else if c == '.' {
        Some(TokenType::Dot)
    } else if c == '-' {
        Some(TokenType::Minus)
    } else if c == '+' {
        Some(TokenType::Plus)
    } else if c == ';' {
        Some(TokenType::Semicolon)
    } else if c == '*' {
        Some(TokenType::Star)
    } else {
        None
    }
}

/// The operators that `=` may follow: the kind of `c` alone, or of `c` with
/// `=` behind it.
pub open spec fn operator(c: char, with_equal: bool) -> Option<TokenType> {
    if c == '!' {
        Some(if with_equal { TokenType::BangEqual } else { TokenType::Bang })
    } else if c == '=' {
        Some(if with_equal { TokenType::EqualEqual } else { TokenType::Equal })
    } else if c == '<' {
        Some(if with_equal { TokenType::LessEqual } else { TokenType::Less })
    } else if c == '>' {
        Some(if with_equal { TokenType::GreaterEqual } else { TokenType::Greater })
    } else {
        None
    }
}

/// The reserved words.
pub open spec fn keyword(word: Seq<char>) -> Option<TokenType> {
    if word == "and"@ {
        Some(TokenType::And)
    } else if word == "class"@ {
        Some(TokenType::Class)
    } else if word == "else"@ {
        Some(TokenType::Else)
    } else if word == "false"@ {
        Some(TokenType::False)
    } else if word == "for"@ {
        Some(TokenType::For)
    } else if word == "fun"@ {
        Some(TokenType::Fun)
    } else if word == "if"@ {
        Some(TokenType::If)
    } else if word == "nil"@ {
        Some(TokenType::Nil)
    } else if word == "or"@ {
        Some(TokenType::Or)
    } else if word == "print"@ {
        Some(TokenType::Print)
    } else if word == "return"@ {
        Some(TokenType::Return)
    } else if word == "super"@ {
        Some(TokenType::Super)
    } else if word == "this"@ {
        Some(TokenType::This)
    } else if word == "true"@ {
        Some(TokenType::True)
    } else if word == "var"@ {
        Some(TokenType::Var)
    } else if word == "while"@ {
        Some(TokenType::While)
    } else {
        None
    }
}

/// The kind of a word: its keyword, or an identifier.
pub open spec fn word_kind(word: Seq<char>) -> TokenType {
    match keyword(word) {
        Some(kind) => kind,
        None => TokenType::Identifier,
    }
}

/// The least whole number that is nearer to no finite 64-bit float than to
/// infinity, two to the 1024 less two to the 970, in decimal.
pub open spec fn double_limit() -> Seq<char> {
    "179769313486231580793728971405303415079934132710037826936173778980444968292764750946649017977587207096330286416692887910946555547851940402630657488671505820681908902000708383676273854845817711531764475730270069855571366959622842914819860834936475292719074168444365510704342711559699508093042880177904174497792"@
}

/// Whether `a` comes before `b` where they first differ at or after `from`.
/// Of two digit strings of one length this is the order of the numbers.
pub open spec fn precedes(a: Seq<char>, b: Seq<char>, from: int) -> bool
    decreases a.len() - from,
{
    if from < 0 || from >= a.len() || from >= b.len() {
        false
    } else if a[from] != b[from] {
        a[from] < b[from]
    } else {
        precedes(a, b, from + 1)
    }
}

/// The digits before the point of a numeral, without its leading zeros.
pub open spec fn whole_digits(numeral: Seq<char>) -> Seq<char> {
    let zeros = run_len(numeral, 0, Run::Zeros) as int;
    numeral.subrange(zeros, zeros + run_len(numeral, zeros, Run::Digits))
}

/// Whether a 64-bit float can stand for a numeral: whether its whole part is
/// below [`double_limit`], so that the nearest float is finite.
pub open spec fn fits_double(numeral: Seq<char>) -> bool {
    let whole = whole_digits(numeral);
    whole.len() < double_limit().len() || (whole.len() == double_limit().len() && precedes(
        whole,
        double_limit(),
        0,
    ))
}

/// What becomes of one piece of the text.
pub enum Outcome {
    /// It is a token of this kind.
    Emit(TokenType),
    /// It is whitespace or a comment.
    Skip,
    /// It is malformed.
    Reject(LexicalError),
}

/// One step of a scan: the number of characters taken, never zero, and what
/// becomes of them.
pub struct Step {
    pub width: nat,
    pub outcome: Outcome,
}

/// The width of the number literal at `pos`: its digits, and a point with the
/// digits behind it where at least one digit follows the point.
pub open spec fn number_width(src: Seq<char>, pos: int) -> nat {
    let whole = 1 + run_len(src, pos + 1, Run::Digits);
    if char_at(src, pos + whole) == '.' && is_digit(char_at(src, pos + whole + 1)) {
        whole + 1 + run_len(src, pos + whole + 1, Run::Digits)
    } else {
        whole
    }
}

/// The step that a scan takes at `pos`, a position inside the text.
pub open spec fn step(src: Seq<char>, pos: int) -> Step
    recommends
        0 <= pos < src.len(),
{
    let c = src[pos];
    if punctuation(c) is Some {
        Step { width: 1, outcome: Outcome::Emit(punctuation(c)->0) }
    } else if operator(c, false) is Some {
        if char_at(src, pos + 1) == '=' {
            Step { width: 2, outcome: Outcome::Emit(operator(c, true)->0) }
        } else {
            Step { width: 1, outcome: Outcome::Emit(operator(c, false)->0) }
        }
    } else if c == '/' {
        if char_at(src, pos + 1) == '/' {
            Step { width: 2 + run_len(src, pos + 2, Run::Comment), outcome: Outcome::Skip }
        } else {
            Step { width: 1, outcome: Outcome::Emit(TokenType::Slash) }
        }
    } else if is_blank(c) {
        Step { width: 1, outcome: Outcome::Skip }
    } else if c == '"' {
        let inner = run_len(src, pos + 1, Run::Quoted);
        if pos + 1 + inner < src.len() {
            Step { width: inner + 2, outcome: Outcome::Emit(TokenType::String) }
        } else {
            Step { width: inner + 1, outcome: Outcome::Reject(LexicalError::UnterminatedString) }
        }
    } else if is_digit(c) {
        let width = number_width(src, pos);
        if fits_double(src.subrange(pos, pos + width)) {
            Step { width, outcome: Outcome::Emit(TokenType::Number) }
        } else {
            Step { width, outcome: Outcome::Reject(LexicalError::InvalidNumber) }
        }
    } else if is_alpha(c) {
        let width = 1 + run_len(src, pos + 1, Run::Word);
        Step { width, outcome: Outcome::Emit(word_kind(src.subrange(pos, pos + width))) }
    } else {
        Step { width: 1, outcome: Outcome::Reject(LexicalError::UnexpectedCharacter) }
    }
}

/// The value that a token of the given kind and lexeme carries: a number its
/// numeral, a string the text between its quotes, any other nothing.
pub open spec fn literal_of(kind: TokenType, lexeme: Seq<char>) -> LiteralView {
    match kind {
        TokenType::Number => LiteralView::Number(lexeme),
        TokenType::String => LiteralView::Text(lexeme.subrange(1, lexeme.len() - 1)),
        _ => LiteralView::Absent,
    }
}

/// The token of the given kind that takes `width` characters from `pos`. Its
/// line is that of its first character.
pub open spec fn token_at(src: Seq<char>, pos: int, width: nat, kind: TokenType) -> TokenView {
    let lexeme = src.subrange(pos, pos + width);
    TokenView { kind, lexeme, line: line_at(src, pos), literal: literal_of(kind, lexeme) }
}

/// The token that closes every scan: no lexeme, on the last line of the text.
pub open spec fn end_of_input(src: Seq<char>) -> TokenView {
    TokenView {
        kind: TokenType::EOF,
        lexeme: Seq::empty(),
        line: line_at(src, src.len() as int),
        literal: LiteralView::Absent,
    }
}

/// The tokens that the step at `pos` gives: one or none.
pub open spec fn emitted(src: Seq<char>, pos: int) -> Seq<TokenView> {
    match step(src, pos).outcome {
        Outcome::Emit(kind) => seq![token_at(src, pos, step(src, pos).width, kind)],
        _ => Seq::empty(),
    }
}

/// The reports that the step at `pos` gives: one or none. A report carries the
/// line on which the malformed piece starts.
pub open spec fn rejected(src: Seq<char>, pos: int) -> Seq<ReportView> {
    match step(src, pos).outcome {
        Outcome::Reject(error) => seq![
            ReportView {
                line: line_at(src, pos),
                location: Seq::empty(),
                message: error.message_spec(),
            },
        ],
        _ => Seq::empty(),
    }
}

/// A run is maximal: it stays inside the text, every character of it is of
/// its kind, and the character behind it, if there is one, is not.
pub proof fn lemma_run_is_maximal(src: Seq<char>, pos: int, run: Run)
    requires
        0 <= pos <= src.len(),
    ensures
        pos + run_len(src, pos, run) <= src.len(),
        forall|i: int| pos <= i < pos + run_len(src, pos, run) ==> belongs(run, #[trigger] src[i]),
        pos + run_len(src, pos, run) < src.len() ==> !belongs(
            run,
            src[pos + run_len(src, pos, run)],
        ),
    decreases src.len() - pos,
{
    if pos < src.len() && belongs(run, src[pos]) {
        lemma_run_is_maximal(src, pos + 1, run);
    }
}

/// Every step takes at least one character and none from beyond the text.
pub proof fn lemma_step_advances(src: Seq<char>, pos: int)
    requires
        0 <= pos < src.len(),
    ensures
        1 <= step(src, pos).width,
        pos + step(src, pos).width <= src.len(),
{
    lemma_run_is_maximal(src, pos + 1, Run::Digits);
    lemma_run_is_maximal(src, pos + 1, Run::Word);
    lemma_run_is_maximal(src, pos + 1, Run::Quoted);
    if pos + 2 <= src.len() {
        lemma_run_is_maximal(src, pos + 2, Run::Comment);
    }
    let whole = 1 + run_len(src, pos + 1, Run::Digits);
    if pos + whole + 1 <= src.len() {
        lemma_run_is_maximal(src, pos + whole + 1, Run::Digits);
    }
}

#[via_fn]
proof fn tokens_from_terminates(src: Seq<char>, pos: int) {
    if 0 <= pos < src.len() {
        lemma_step_advances(src, pos);
    }
}

#[via_fn]
proof fn reports_from_terminates(src: Seq<char>, pos: int) {
    if 0 <= pos < src.len() {
        lemma_step_advances(src, pos);
    }
}

/// The tokens of the text from `pos` on, the closing token included.
pub open spec fn tokens_from(src: Seq<char>, pos: int) -> Seq<TokenView>
    decreases src.len() - pos,
    via tokens_from_terminates
{
    if 0 <= pos < src.len() {
        emitted(src, pos) + tokens_from(src, pos + step(src, pos).width)
    } else {
        seq![end_of_input(src)]
    }
}

/// The reports of the text from `pos` on.
pub open spec fn reports_from(src: Seq<char>, pos: int) -> Seq<ReportView>
    decreases src.len() - pos,
    via reports_from_terminates
{
    if 0 <= pos < src.len() {
        rejected(src, pos) + reports_from(src, pos + step(src, pos).width)
    } else {
        Seq::empty()
    }
}

/// The tokens of a text.
pub open spec fn tokens_of(src: Seq<char>) -> Seq<TokenView> {
    tokens_from(src, 0)
}

/// The reports of a text.
pub open spec fn reports_of(src: Seq<char>) -> Seq<ReportView> {
    reports_from(src, 0)
}

} // verus!
