//! What the guard has to tell its user: one value for each message, and the
//! text of each.

use vstd::prelude::*;
use vstd::string::*;

verus! {

/// Something the guard reports. None of them stops the work.
#[derive(Debug, Clone, PartialEq, Eq)]
pub enum Diagnostic {
    /// A configuration file is there and could not be opened.
    ConfigNotOpened { filename: String },
    /// A line of a configuration file could not be read.
    UnreadableLine { filename: String },
    /// A line of a configuration file is no glob pattern.
    InvalidPattern { pattern: String, filename: String },
    /// A pattern matched more paths than one line may protect.
    ExpansionCut { pattern: String, filename: String },
    /// A path could not be read while a pattern was expanded.
    UnreadablePath { pattern: String, filename: String },
    /// An argument names a protected path and is not handed on.
    Skipped { argument: String },
    /// The real command could not be started.
    CommandFailed { command: String },
    /// The real command cannot be told apart from the guard, or not found.
    NotCallable { reason: String },
}

/// A `Diagnostic` with its texts as sequences of characters.
pub enum DiagnosticView {
    ConfigNotOpened { filename: Seq<char> },
    UnreadableLine { filename: Seq<char> },
    InvalidPattern { pattern: Seq<char>, filename: Seq<char> },
    ExpansionCut { pattern: Seq<char>, filename: Seq<char> },
    UnreadablePath { pattern: Seq<char>, filename: Seq<char> },
    Skipped { argument: Seq<char> },
    CommandFailed { command: Seq<char> },
    NotCallable { reason: Seq<char> },
}

impl View for Diagnostic {
    type V = DiagnosticView;

    open spec fn view(&self) -> DiagnosticView {
        match *self {
            Diagnostic::ConfigNotOpened { filename } => DiagnosticView::ConfigNotOpened {
                filename: filename@,
            },
            Diagnostic::UnreadableLine { filename } => DiagnosticView::UnreadableLine {
                filename: filename@,
            },
            Diagnostic::InvalidPattern { pattern, filename } => DiagnosticView::InvalidPattern {
                pattern: pattern@,
                filename: filename@,
            },
            Diagnostic::ExpansionCut { pattern, filename } => DiagnosticView::ExpansionCut {
                pattern: pattern@,
                filename: filename@,
            },
            Diagnostic::UnreadablePath { pattern, filename } => DiagnosticView::UnreadablePath {
                pattern: pattern@,
                filename: filename@,
            },
            Diagnostic::Skipped { argument } => DiagnosticView::Skipped { argument: argument@ },
            Diagnostic::CommandFailed { command } => DiagnosticView::CommandFailed {
                command: command@,
            },
            Diagnostic::NotCallable { reason } => DiagnosticView::NotCallable { reason: reason@ },
        }
    }
}

impl DiagnosticView {
    /// The line that the guard prints for this diagnostic.
    pub open spec fn message(self) -> Seq<char> {
        match self {
            DiagnosticView::ConfigNotOpened { filename } => {
                "safe-rm: Could not open configuration file: "@ + filename
            },
            DiagnosticView::UnreadableLine { filename } => {
                "safe-rm: Ignoring unreadable line in "@ + filename + "."@
            },
            DiagnosticView::InvalidPattern { pattern, filename } => {
                "safe-rm: Invalid glob pattern \""@ + pattern + "\" found in "@ + filename
                    + " and ignored."@
            },
            DiagnosticView::ExpansionCut { pattern, filename } => {
                "safe-rm: Glob \""@ + pattern + "\" found in "@ + filename
                    + " expands to more than 256 paths. Ignoring the rest."@
            },
            DiagnosticView::UnreadablePath { pattern, filename } => {
                "safe-rm: Ignored unreadable path while expanding glob \""@ + pattern
                    + "\" from "@ + filename + "."@
            },
            DiagnosticView::Skipped { argument } => "safe-rm: Skipping "@ + argument + "."@,
            DiagnosticView::CommandFailed { command } => {
                "safe-rm: Failed to run the "@ + command + " command."@
            },
            DiagnosticView::NotCallable { reason } => {
                "safe-rm: Cannot check that the real \"rm\" binary is callable: "@ + reason
            },
        }
    }
}

/// The name of the guard, with which every message starts.
pub open spec fn tool_prefix() -> Seq<char> {
    "safe-rm: "@
}

/// Every message starts with the name of the guard.
pub proof fn lemma_message_names_the_tool(diagnostic: DiagnosticView)
    ensures
        diagnostic.message().len() >= tool_prefix().len(),
        diagnostic.message().subrange(0, tool_prefix().len() as int) == tool_prefix(),
{
    reveal_strlit("safe-rm: ");
    reveal_strlit("safe-rm: Could not open configuration file: ");
    reveal_strlit("safe-rm: Ignoring unreadable line in ");
    reveal_strlit("safe-rm: Invalid glob pattern \"");
    reveal_strlit("safe-rm: Glob \"");
    reveal_strlit("safe-rm: Ignored unreadable path while expanding glob \"");
    reveal_strlit("safe-rm: Skipping ");
    reveal_strlit("safe-rm: Failed to run the ");
    reveal_strlit("safe-rm: Cannot check that the real \"rm\" binary is callable: ");
    assert(diagnostic.message().subrange(0, tool_prefix().len() as int) =~= tool_prefix());
}

/// Five texts in a row; the messages are made of a text that is given between
/// texts that are fixed.
fn in_a_row(first: &str, second: &str, third: &str, fourth: &str, fifth: &str) -> (text: String)
    ensures
        text@ == first@ + second@ + third@ + fourth@ + fifth@,
{
    let mut text: String = String::from_str(first);
    text.append(second);
    text.append(third);
    text.append(fourth);
    text.append(fifth);
    text
}

impl Diagnostic {
    /// The line that the guard prints for this diagnostic.
    pub fn message(&self) -> (text: String)
        ensures
            text@ == self@.message(),
    {
        let text: String = match self {
            Diagnostic::ConfigNotOpened { filename } => in_a_row(
                "safe-rm: Could not open configuration file: ",
                filename.as_str(),
                "",
                "",
                "",
            ),
            Diagnostic::UnreadableLine { filename } => in_a_row(
                "safe-rm: Ignoring unreadable line in ",
                filename.as_str(),
                ".",
                "",
                "",
            ),
            Diagnostic::InvalidPattern { pattern, filename } => in_a_row(
                "safe-rm: Invalid glob pattern \"",
                pattern.as_str(),
                "\" found in ",
                filename.as_str(),
                " and ignored.",
            ),
            Diagnostic::ExpansionCut { pattern, filename } => in_a_row(
                "safe-rm: Glob \"",
                pattern.as_str(),
                "\" found in ",
                filename.as_str(),
                " expands to more than 256 paths. Ignoring the rest.",
            ),
            Diagnostic::UnreadablePath { pattern, filename } => in_a_row(
                "safe-rm: Ignored unreadable path while expanding glob \"",
                pattern.as_str(),
                "\" from ",
                filename.as_str(),
                ".",
            ),
            Diagnostic::Skipped { argument } => in_a_row(
                "safe-rm: Skipping ",
                argument.as_str(),
                ".",
                "",
                "",
            ),
            Diagnostic::CommandFailed { command } => in_a_row(
                "safe-rm: Failed to run the ",
                command.as_str(),
                " command.",
                "",
                "",
            ),
            Diagnostic::NotCallable { reason } => in_a_row(
                "safe-rm: Cannot check that the real \"rm\" binary is callable: ",
                reason.as_str(),
                "",
                "",
                "",
            ),
        };
        proof {
            reveal_strlit("");
            assert(""@ =~= Seq::<char>::empty());
            assert(text@ =~= self@.message());
        }
        text
    }
}

} // verus!
