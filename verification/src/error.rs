//! Diagnostics: a message, the source line it refers to, and a trace of the
//! contexts through which the error travelled.

use vstd::prelude::*;

verus! {

/// The mathematical content of an [`Error`].
pub struct ErrorView {
    pub message: Seq<char>,
    pub trace: Seq<char>,
    pub line: nat,
}

/// The character that stands for the decimal digit `d`.
pub open spec fn digit_char(d: nat) -> char
    recommends
        d < 10,
{
    ('0' as nat + d) as char
}

/// The decimal numeral of `n`, without leading zeros.
pub open spec fn decimal(n: nat) -> Seq<char>
    decreases n,
{
    if n < 10 {
        seq![digit_char(n)]
    } else {
        decimal(n / 10).push(digit_char(n % 10))
    }
}

/// One entry of a trace: `<message>: at line <line>`.
pub open spec fn trace_entry(message: Seq<char>, line: nat) -> Seq<char> {
    message + ": at line "@ + decimal(line)
}

impl ErrorView {
    /// A fresh diagnostic: its trace is empty.
    pub open spec fn fresh(message: Seq<char>, line: nat) -> ErrorView {
        ErrorView { message, trace: Seq::empty(), line }
    }

    /// The same diagnostic with one more entry at the end of its trace,
    /// directly behind what the trace held before.
    pub open spec fn with_trace(self, message: Seq<char>, line: nat) -> ErrorView {
        ErrorView {
            message: self.message,
            trace: self.trace + trace_entry(message, line),
            line: self.line,
        }
    }

    /// The text shown to the user: the message, then the trace on a new,
    /// indented line.
    pub open spec fn rendered(self) -> Seq<char> {
        self.message + "\n\t"@ + self.trace
    }
}

#[derive(Debug)]
pub struct Error {
    message: &'static str,
    trace: String,
    line: u64,
}

impl View for Error {
    type V = ErrorView;

    closed spec fn view(&self) -> ErrorView {
        ErrorView { message: self.message@, trace: self.trace@, line: self.line as nat }
    }
}

impl Error {
    pub fn new(message: &'static str, line: u64) -> (e: Self)
        ensures
            e@ == ErrorView::fresh(message@, line as nat),
    {
        Self { message, trace: String::new(), line }
    }

    pub fn to_string(&self) -> (text: String)
        ensures
            text@ == self@.rendered(),
    {
        let mut text = self.message.to_owned();
        text.append("\n\t");
        text.append(self.trace.as_str());
        text
    }

    pub fn message(&self) -> (message: &'static str)
        ensures
            message@ == self@.message,
    {
        self.message
    }

    pub fn trace(&self) -> (trace: &str)
        ensures
            trace@ == self@.trace,
    {
        self.trace.as_str()
    }

    pub fn line(&self) -> (line: u64)
        ensures
            line == self@.line,
    {
        self.line
    }
}

/// The character of one decimal digit.
fn digit(d: u64) -> (c: char)
    requires
        d < 10,
    ensures
        c == digit_char(d as nat),
{
    if d == 0 {
        '0'
    } else if d == 1 {
        '1'
    } else if d == 2 {
        '2'
    } else if d == 3 {
        '3'
    } else if d == 4 {
        '4'
    } else if d == 5 {
        '5'
    } else if d == 6 {
        '6'
    } else if d == 7 {
        '7'
    } else if d == 8 {
        '8'
    } else {
        '9'
    }
}

/// Appends the decimal numeral of `n` to `text`.
pub fn push_decimal(text: &mut String, n: u64)
    ensures
        final(text)@ == old(text)@ + decimal(n as nat),
    decreases n,
{
    if n >= 10 {
        push_decimal(text, n / 10);
    }
    text.push(digit(n % 10));
}

pub fn error(message: &'static str, line: u64) -> (e: Error)
    ensures
        e@ == ErrorView::fresh(message@, line as nat),
{
    Error::new(message, line)
}

pub fn error_with_trace(message: &'static str, line: u64, error: Error) -> (e: Error)
    ensures
        e@ == error@.with_trace(message@, line as nat),
{
    let mut error = error;
    let ghost old_trace = error.trace@;
    error.trace.append(message);
    error.trace.append(": at line ");
    push_decimal(&mut error.trace, line);
    assert(error.trace@ =~= old_trace + trace_entry(message@, line as nat));
    error
}

} // verus!
