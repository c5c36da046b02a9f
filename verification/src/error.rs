//! The errors the library reports, and the messages they are shown with.
use vstd::prelude::*;
use vstd::string::*;

verus! {

/// Everything the library can refuse, with the text that caused it.
#[derive(Debug)]
pub enum CliError {
    /// `--target` (or `Target::parse`) got something other than `opencode` or `pi`.
    InvalidTarget(String),
    /// `--template` (or `Template::parse`) got something other than `minimal`.
    InvalidTemplate(String),
    /// The first argument is neither `generate` nor a help request.
    UnknownCommand(String),
    /// An argument after `generate` is not a known flag.
    UnknownFlag(String),
    /// A flag that takes a value came last.
    MissingValue(String),
    /// A file that generation would write already exists and `--force` is off.
    ExistingFile(String),
    /// The wizard's project name is empty or only white space.
    EmptyProjectName,
    /// The wizard was quit.
    Cancelled,
}

/// The mathematical value of a `CliError`: its kind and its text.
pub enum ErrorView {
    InvalidTarget(Seq<char>),
    InvalidTemplate(Seq<char>),
    UnknownCommand(Seq<char>),
    UnknownFlag(Seq<char>),
    MissingValue(Seq<char>),
    ExistingFile(Seq<char>),
    EmptyProjectName,
    Cancelled,
}

impl View for CliError {
    type V = ErrorView;

    open spec fn view(&self) -> ErrorView {
        match self {
            CliError::InvalidTarget(s) => ErrorView::InvalidTarget(s@),
            CliError::InvalidTemplate(s) => ErrorView::InvalidTemplate(s@),
            CliError::UnknownCommand(s) => ErrorView::UnknownCommand(s@),
            CliError::UnknownFlag(s) => ErrorView::UnknownFlag(s@),
            CliError::MissingValue(s) => ErrorView::MissingValue(s@),
            CliError::ExistingFile(s) => ErrorView::ExistingFile(s@),
            CliError::EmptyProjectName => ErrorView::EmptyProjectName,
            CliError::Cancelled => ErrorView::Cancelled,
        }
    }
}

/// The message shown for an error.
pub open spec fn error_message(e: ErrorView) -> Seq<char> {
    match e {
        ErrorView::InvalidTarget(s) => "invalid target `"@ + s + "`. Use `opencode` or `pi`."@,
        ErrorView::InvalidTemplate(s) => "invalid template `"@ + s
            + "`. Only `minimal` is supported right now."@,
        ErrorView::UnknownCommand(s) => "unknown command `"@ + s + "`. Use `cli help`."@,
        ErrorView::UnknownFlag(s) => "unknown flag `"@ + s + "`. Use `cli help`."@,
        ErrorView::MissingValue(s) => "missing value for "@ + s,
        ErrorView::ExistingFile(s) => "refusing to overwrite existing file: "@ + s
            + ". Re-run with --force."@,
        ErrorView::EmptyProjectName => "project name cannot be empty"@,
        ErrorView::Cancelled => "generation cancelled"@,
    }
}

/// `head`, then `middle`, then `tail`.
fn surround(head: &str, middle: &str, tail: &str) -> (out: String)
    ensures
        out@ == head@ + middle@ + tail@,
{
    let mut out = String::from_str(head);
    out.append(middle);
    out.append(tail);
    out
}

impl CliError {
    /// The message shown for this error.
    pub fn message(&self) -> (out: String)
        ensures
            out@ == error_message(self@),
    {
        match self {
            CliError::InvalidTarget(s) => surround(
                "invalid target `",
                s.as_str(),
                "`. Use `opencode` or `pi`.",
            ),
            CliError::InvalidTemplate(s) => surround(
                "invalid template `",
                s.as_str(),
                "`. Only `minimal` is supported right now.",
            ),
            CliError::UnknownCommand(s) => surround(
                "unknown command `",
                s.as_str(),
                "`. Use `cli help`.",
            ),
            CliError::UnknownFlag(s) => surround("unknown flag `", s.as_str(), "`. Use `cli help`."),
            CliError::MissingValue(s) => {
                let mut out = String::from_str("missing value for ");
                out.append(s.as_str());
                out
            },
            CliError::ExistingFile(s) => surround(
                "refusing to overwrite existing file: ",
                s.as_str(),
                ". Re-run with --force.",
            ),
            CliError::EmptyProjectName => String::from_str("project name cannot be empty"),
            CliError::Cancelled => String::from_str("generation cancelled"),
        }
    }
}

} // verus!
