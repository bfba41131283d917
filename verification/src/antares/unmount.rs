//! Reading the report of the unmount tool.

use vstd::prelude::*;
use vstd::string::*;
use super::text::contains_text;
use super::text::text_contains;

verus! {

/// What the attempt to run the unmount tool on a mountpoint came to.
#[derive(Debug)]
pub enum UnmountReport {
    /// The tool could not be launched; the text says why.
    SpawnFailed(String),
    /// The tool ran: whether its exit status was zero, and what it wrote to
    /// its diagnostic stream.
    Exited { success: bool, diagnostic: String },
}

/// How a run of the unmount tool is classified.
#[derive(Debug)]
pub enum UnmountOutcome {
    /// The tool unmounted the filesystem.
    Success,
    /// Nothing was mounted there: the teardown has nothing to undo.
    AlreadyUnmounted,
    /// The tool failed for another reason; its diagnostic text is kept.
    OtherFailure(String),
}

/// An outcome with its text as characters.
pub enum UnmountOutcomeView {
    Success,
    AlreadyUnmounted,
    OtherFailure(Seq<char>),
}

impl View for UnmountOutcome {
    type V = UnmountOutcomeView;

    open spec fn view(&self) -> UnmountOutcomeView {
        match self {
            UnmountOutcome::Success => UnmountOutcomeView::Success,
            UnmountOutcome::AlreadyUnmounted => UnmountOutcomeView::AlreadyUnmounted,
            UnmountOutcome::OtherFailure(text) => UnmountOutcomeView::OtherFailure(text@),
        }
    }
}

/// The diagnostic says that nothing needed unmounting: it names a target
/// that is not mounted, or an invalid one.
pub open spec fn says_not_mounted(diagnostic: Seq<char>) -> bool {
    contains_text(diagnostic, "not mounted"@) || contains_text(diagnostic, "Invalid argument"@)
}

/// The outcome of a run with the given exit status and diagnostic text.
pub open spec fn classify_spec(success: bool, diagnostic: Seq<char>) -> UnmountOutcomeView {
    if success {
        UnmountOutcomeView::Success
    } else if says_not_mounted(diagnostic) {
        UnmountOutcomeView::AlreadyUnmounted
    } else {
        UnmountOutcomeView::OtherFailure(diagnostic)
    }
}

/// Classifies a run of the unmount tool.
///
/// A zero exit status is a success whatever the tool wrote. A failure whose
/// diagnostic says that nothing was mounted counts as already unmounted; any
/// other failure keeps the diagnostic.
pub fn classify_unmount(success: bool, diagnostic: &str) -> (outcome: UnmountOutcome)
    ensures
        outcome@ == classify_spec(success, diagnostic@),
{
    if success {
        UnmountOutcome::Success
    } else if text_contains(diagnostic, "not mounted") || text_contains(diagnostic, "Invalid argument") {
        UnmountOutcome::AlreadyUnmounted
    } else {
        UnmountOutcome::OtherFailure(String::from_str(diagnostic))
    }
}

} // verus!
