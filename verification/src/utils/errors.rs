//! Reporting of malformed input.
//!
//! The code that finds an error does not decide how it is shown. It hands the
//! message and the line to an [`ErrorSink`], which keeps them in order and
//! remembers that something was reported; whoever drives the scan renders the
//! reports and looks at the flag.

use vstd::prelude::*;
use vstd::string::StringExecFns;

verus! {

/// The ways in which source text can be malformed.
#[derive(Clone, Copy, Debug, PartialEq, Eq, Structural)]
pub enum LexicalError {
    /// A character that begins no token.
    UnexpectedCharacter,
    /// A string literal with no closing quote before the end of the input.
    UnterminatedString,
    /// A number literal too large for a 64-bit float.
    InvalidNumber,
}

impl LexicalError {
    /// The message under which an error is reported.
    pub open spec fn message_spec(self) -> Seq<char> {
        match self {
            LexicalError::UnexpectedCharacter => "Unexpected character."@,
            LexicalError::UnterminatedString => "Unterminated string."@,
            LexicalError::InvalidNumber => "Invalid number."@,
        }
    }

    /// The message under which this error is reported.
    pub fn message(&self) -> (text: &'static str)
        ensures
            text@ == self.message_spec(),
    {
        match self {
            LexicalError::UnexpectedCharacter => "Unexpected character.",
            LexicalError::UnterminatedString => "Unterminated string.",
            LexicalError::InvalidNumber => "Invalid number.",
        }
    }
}

/// One reported error.
#[derive(Clone, Debug, PartialEq, Eq)]
pub struct Report {
    pub line: u64,
    /// Where on the line, in words; empty where only the line is known.
    pub location: String,
    pub message: String,
}

/// What a [`Report`] stands for.
pub struct ReportView {
    pub line: u64,
    pub location: Seq<char>,
    pub message: Seq<char>,
}

impl View for Report {
    type V = ReportView;

    open spec fn view(&self) -> ReportView {
        ReportView { line: self.line, location: self.location@, message: self.message@ }
    }
}

/// The views of a sequence of reports, in order.
pub open spec fn report_views(reports: Seq<Report>) -> Seq<ReportView> {
    reports.map_values(|r: Report| r@)
}

/// The character that stands for a digit below ten.
pub open spec fn digit_char(d: int) -> char {
    (d + 48) as char
}

/// A natural number in decimal, without leading zeros.
pub open spec fn decimal(n: nat) -> Seq<char>
    decreases n,
{
    if n < 10 {
        seq![digit_char(n as int)]
    } else {
        decimal(n / 10).push(digit_char((n % 10) as int))
    }
}

/// The line of text that shows a report.
pub open spec fn rendering(r: ReportView) -> Seq<char> {
    "[line "@ + decimal(r.line as nat) + "] Error"@ + r.location + ": "@ + r.message
}

fn digit_text(d: u64) -> (text: &'static str)
    requires
        d < 10,
    ensures
        text@ == seq![digit_char(d as int)],
{
    proof {
        reveal_strlit("0");
        reveal_strlit("1");
        reveal_strlit("2");
        reveal_strlit("3");
        reveal_strlit("4");
        reveal_strlit("5");
        reveal_strlit("6");
        reveal_strlit("7");
        reveal_strlit("8");
        reveal_strlit("9");
    }
    let text = if d == 0 {
        "0"
    } else if d == 1 {
        "1"
    } else if d == 2 {
        "2"
    } else if d == 3 {
        "3"
    } else if d == 4 {
        "4"
    } else if d == 5 {
        "5"
    } else if d == 6 {
        "6"
    } else if d == 7 {
        "7"
    } else if d == 8 {
        "8"
    } else {
        "9"
    };
    assert(text@ =~= seq![digit_char(d as int)]);
    text
}

/// Writes a number in decimal.
pub fn decimal_text(n: u64) -> (text: String)
    ensures
        text@ == decimal(n as nat),
    decreases n,
{
    if n < 10 {
        String::from_str(digit_text(n))
    } else {
        let mut text = decimal_text(n / 10);
        text.append(digit_text(n % 10));
        assert(text@ =~= decimal(n as nat));
        text
    }
}

impl Report {
    /// The line of text that shows this report.
    pub fn render(&self) -> (text: String)
        ensures
            text@ == rendering(self@),
    {
        let mut text = String::from_str("[line ");
        text.append(decimal_text(self.line).as_str());
        text.append("] Error");
        text.append(self.location.as_str());
        text.append(": ");
        text.append(self.message.as_str());
        text
    }
}

/// Collects the errors of a run, in the order in which they were reported.
#[derive(Clone, Debug, PartialEq, Eq)]
pub struct ErrorSink {
    /// Whether anything has been reported. A driver may consult it to decide
    /// how to exit; reporting only ever sets it.
    pub had_error: bool,
    pub reports: Vec<Report>,
}

impl View for ErrorSink {
    type V = Seq<ReportView>;

    open spec fn view(&self) -> Seq<ReportView> {
        report_views(self.reports@)
    }
}

impl ErrorSink {
    /// A sink to which nothing has been reported.
    pub fn new() -> (sink: ErrorSink)
        ensures
            !sink.had_error,
            sink@ == Seq::<ReportView>::empty(),
    {
        let sink = ErrorSink { had_error: false, reports: Vec::new() };
        assert(sink@ =~= Seq::<ReportView>::empty());
        sink
    }
}

/// Records an error at `location` on `line` and raises the sink's flag.
pub fn report(sink: &mut ErrorSink, line: u64, location: &str, message: &str)
    ensures
        final(sink).had_error,
        final(sink)@ == old(sink)@.push(
            (ReportView { line, location: location@, message: message@ }),
        ),
{
    let entry = Report {
        line,
        location: String::from_str(location),
        message: String::from_str(message),
    };
    sink.reports.push(entry);
    sink.had_error = true;
    assert(sink@ =~= old(sink)@.push(
        (ReportView { line, location: location@, message: message@ }),
    ));
}

/// Records an error of which only the line is known.
pub fn handle_error(sink: &mut ErrorSink, message: &str, line: u64)
    ensures
        final(sink).had_error,
        final(sink)@ == old(sink)@.push(
            (ReportView { line, location: Seq::<char>::empty(), message: message@ }),
        ),
{
    proof {
        reveal_strlit("");
    }
    assert(""@ =~= Seq::<char>::empty());
    report(sink, line, "", message);
}

} // verus!
