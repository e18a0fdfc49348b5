//! The error classification and the line that reports an error.

use ansiterm::Color;
use vstd::prelude::*;
use vstd::string::*;

verus! {

/// The closed classification of everything that can go wrong.
#[derive(Clone, Copy, Debug, PartialEq, Eq, Structural)]
pub enum ErrorType {
    /// A response that this client cannot accept.
    HttpError,
    /// A failure to connect, to send or to receive.
    NetworkError,
    /// A version argument that is no semantic version.
    VersionError,
}

impl ErrorType {
    /// The name under which the kind is reported.
    pub open spec fn spec_name(self) -> Seq<char> {
        match self {
            ErrorType::HttpError => "HttpError"@,
            ErrorType::NetworkError => "NetworkError"@,
            ErrorType::VersionError => "VersionError"@,
        }
    }

    /// The name under which the kind is reported.
    pub fn name(&self) -> (name: &'static str)
        ensures
            name@ == self.spec_name(),
    {
        match self {
            ErrorType::HttpError => "HttpError",
            ErrorType::NetworkError => "NetworkError",
            ErrorType::VersionError => "VersionError",
        }
    }

    /// The name under which the kind is reported, as an owned string.
    pub fn to_string(&self) -> (name: String)
        ensures
            name@ == self.spec_name(),
    {
        self.name().to_owned()
    }
}

/// A failure, classified and described.
#[derive(Debug)]
pub struct Error {
    pub kind: ErrorType,
    pub message: String,
}

/// What an [`Error`] stands for: its kind and the characters of its message.
pub struct ErrorView {
    pub kind: ErrorType,
    pub message: Seq<char>,
}

impl View for Error {
    type V = ErrorView;

    open spec fn view(&self) -> ErrorView {
        ErrorView { kind: self.kind, message: self.message@ }
    }
}

impl Error {
    /// An error of the given kind with the given message.
    pub fn new(kind: ErrorType, message: &str) -> (error: Error)
        ensures
            error@ == (ErrorView { kind, message: message@ }),
    {
        Error { kind, message: message.to_owned() }
    }

    /// An error of the given kind whose message is `prefix` followed by `detail`.
    pub fn with_detail(kind: ErrorType, prefix: &str, detail: &str) -> (error: Error)
        ensures
            error@ == (ErrorView { kind, message: prefix@ + detail@ }),
    {
        let mut message = prefix.to_owned();
        message.append(detail);
        Error { kind, message }
    }

    /// The line that reports this error.
    pub fn to_string(&self) -> (line: String)
        ensures
            line@ == error_line_text(self.kind, self.message@),
    {
        error_line(self.kind, self.message.as_str())
    }
}

/// The escape sequence that switches a terminal to bold red.
pub const BOLD_RED: &'static str = "\x1b[1;31m";

/// The escape sequence that switches a terminal back to its default style.
pub const RESET: &'static str = "\x1b[0m";

/// The report of an error: the word `error` in bold red, the kind's name, a
/// colon and the message.
pub open spec fn error_line_text(kind: ErrorType, message: Seq<char>) -> Seq<char> {
    BOLD_RED@ + "error"@ + RESET@ + " "@ + kind.spec_name() + ": "@ + message
}

/// Trusted: calls `ansiterm::Color::Red.bold().paint(text)` and renders the
/// painted text with `to_string`. The contract claims that the rendering is
/// the text between the escape sequence for bold red and the reset sequence,
/// which is what `Style::write_prefix` and `Style::write_suffix` write for a
/// style that is bold with a red foreground and nothing else.
#[verifier::external_body]
fn paint_bold_red(text: &str) -> (painted: String)
    ensures
        painted@ == BOLD_RED@ + text@ + RESET@,
{
    Color::Red.bold().paint(text).to_string()
}

/// The line that reports an error of the given kind.
pub fn error_line(kind: ErrorType, message: &str) -> (line: String)
    ensures
        line@ == error_line_text(kind, message@),
{
    let mut line = paint_bold_red("error");
    line.append(" ");
    line.append(kind.name());
    line.append(": ");
    line.append(message);
    line
}

} // verus!
