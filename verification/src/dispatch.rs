//! Handing the request on to the real command: whether the real command may
//! be called at all, and the status with which the guard ends.

use crate::diagnostic::{Diagnostic, DiagnosticView};
use vstd::prelude::*;
use vstd::string::*;

verus! {

/// Where the real command lies.
pub const REAL_RM: &'static str = "/bin/rm";

/// The status with which the guard ends when it fails by itself.
pub const FAILURE_STATUS: i32 = 1;

/// Why the real command may not be called.
#[derive(Debug, Clone, PartialEq, Eq)]
pub enum CallableError {
    /// The real command or the guard itself could not be found; the reason
    /// is that of the filesystem.
    Unresolved { reason: String },
    /// The real command is the guard itself.
    PointsToSelf,
}

/// A `CallableError` with its text as a sequence of characters.
pub enum CallableErrorView {
    Unresolved { reason: Seq<char> },
    PointsToSelf,
}

impl View for CallableError {
    type V = CallableErrorView;

    open spec fn view(&self) -> CallableErrorView {
        match *self {
            CallableError::Unresolved { reason } => CallableErrorView::Unresolved {
                reason: reason@,
            },
            CallableError::PointsToSelf => CallableErrorView::PointsToSelf,
        }
    }
}

impl CallableErrorView {
    /// The reason in words.
    pub open spec fn reason(self) -> Seq<char> {
        match self {
            CallableErrorView::Unresolved { reason } => reason,
            CallableErrorView::PointsToSelf => {
                "The real rm command points to the safe-rm binary."@
            },
        }
    }
}

impl CallableError {
    /// What the guard reports for this error.
    pub fn report(&self) -> (report: Diagnostic)
        ensures
            report@ == (DiagnosticView::NotCallable { reason: self@.reason() }),
    {
        match self {
            CallableError::Unresolved { reason } => Diagnostic::NotCallable {
                reason: reason.clone(),
            },
            CallableError::PointsToSelf => Diagnostic::NotCallable {
                reason: String::from_str("The real rm command points to the safe-rm binary."),
            },
        }
    }
}

/// A canonical path, or the reason for which there is none, as sequences of
/// characters.
pub open spec fn resolution(found: Result<String, String>) -> Result<Seq<char>, Seq<char>> {
    match found {
        Ok(path) => Ok(path@),
        Err(reason) => Err(reason@),
    }
}

/// Whether the real command may be called, given the canonical path of the
/// real command and that of the running guard: not where one of them could
/// not be resolved, the real command first, and not where both are the same.
pub open spec fn callable(
    real_rm: Result<Seq<char>, Seq<char>>,
    own: Result<Seq<char>, Seq<char>>,
) -> Result<(), CallableErrorView> {
    match real_rm {
        Err(reason) => Err(CallableErrorView::Unresolved { reason }),
        Ok(real_path) => match own {
            Err(reason) => Err(CallableErrorView::Unresolved { reason }),
            Ok(own_path) => if real_path == own_path {
                Err(CallableErrorView::PointsToSelf)
            } else {
                Ok(())
            },
        },
    }
}

/// Makes sure that calling the real command does not call the guard again.
/// `real_rm` and `own` are the canonical paths of the real command and of the
/// running guard, or the reasons for which they could not be resolved.
pub fn ensure_real_rm_is_callable(
    real_rm: &Result<String, String>,
    own: &Result<String, String>,
) -> (checked: Result<(), CallableError>)
    ensures
        match checked {
            Ok(_) => callable(resolution(*real_rm), resolution(*own)) is Ok,
            Err(error) => callable(resolution(*real_rm), resolution(*own)) == Err::<
                (),
                CallableErrorView,
            >(error@),
        },
{
    match real_rm {
        Err(reason) => Err(CallableError::Unresolved { reason: reason.clone() }),
        Ok(real_path) => match own {
            Err(reason) => Err(CallableError::Unresolved { reason: reason.clone() }),
            Ok(own_path) => if *real_path == *own_path {
                Err(CallableError::PointsToSelf)
            } else {
                Ok(())
            },
        },
    }
}

/// How the run of the real command ended.
#[derive(Debug, Clone, Copy, PartialEq, Eq, Structural)]
pub enum ChildOutcome {
    /// It ran and ended with this status.
    Exited(i32),
    /// It ran and ended without a status.
    Interrupted,
    /// It could not be started.
    NotStarted,
}

/// The status with which the guard ends: that of the real command, or the
/// failure status where the real command left none.
pub open spec fn exit_status_of(outcome: ChildOutcome) -> i32 {
    match outcome {
        ChildOutcome::Exited(status) => status,
        ChildOutcome::Interrupted => FAILURE_STATUS,
        ChildOutcome::NotStarted => FAILURE_STATUS,
    }
}

/// The status with which the guard ends.
pub fn exit_status(outcome: ChildOutcome) -> (status: i32)
    ensures
        status == exit_status_of(outcome),
{
    match outcome {
        ChildOutcome::Exited(status) => status,
        ChildOutcome::Interrupted => FAILURE_STATUS,
        ChildOutcome::NotStarted => FAILURE_STATUS,
    }
}

/// What there is to report of the run of `command`: that it could not be
/// started, and nothing else.
pub fn launch_report(command: &str, outcome: ChildOutcome) -> (report: Option<Diagnostic>)
    ensures
        match report {
            Some(failed) => outcome == ChildOutcome::NotStarted && failed@
                == (DiagnosticView::CommandFailed { command: command@ }),
            None => outcome != ChildOutcome::NotStarted,
        },
{
    match outcome {
        ChildOutcome::NotStarted => Some(
            Diagnostic::CommandFailed { command: String::from_str(command) },
        ),
        _ => None,
    }
}

} // verus!
