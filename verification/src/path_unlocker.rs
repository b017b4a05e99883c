//! Unlocking one path.
//!
//! The caller reads the permission state of the path and hands the result to
//! [`unlock_path`]. Where that asks for a write, the caller writes the given
//! state to the given path, which is the path it asked about, and hands the
//! result to [`persisted`]. Either way it ends with an [`Outcome`], never
//! with anything fatal. Nothing but the permission state of that one path is
//! ever asked to be written.

use vstd::prelude::*;
use crate::permissions::Permissions;
use crate::report::{notice_view, Failure, FailureView, Notice, NoticeView};

verus! {

/// What reading the permission state of a path gave.
#[derive(Clone, Debug, PartialEq, Eq)]
pub enum Probe {
    /// The state was read.
    Found { permissions: Permissions },
    /// It could not be read: the path vanished, or access was denied.
    Failed { cause: String },
}

/// Mathematical value of a [`Probe`].
pub enum ProbeView {
    Found { permissions: Permissions },
    Failed { cause: Seq<char> },
}

impl View for Probe {
    type V = ProbeView;

    open spec fn view(&self) -> ProbeView {
        match *self {
            Probe::Found { permissions } => ProbeView::Found { permissions },
            Probe::Failed { cause } => ProbeView::Failed { cause: cause@ },
        }
    }
}

/// How unlocking one path ended.
#[derive(Clone, Debug, PartialEq, Eq)]
pub enum Outcome {
    /// The path was writable already; nothing was written.
    AlreadyWritable,
    /// The path was write-protected and the cleared state was written.
    Unlocked,
    /// The path was left as it was.
    Failed { failure: Failure },
}

/// Mathematical value of an [`Outcome`].
pub enum OutcomeView {
    AlreadyWritable,
    Unlocked,
    Failed { failure: FailureView },
}

impl OutcomeView {
    /// Both ways of ending with a writable path count as success.
    pub open spec fn is_success(self) -> bool {
        !(self is Failed)
    }

    /// What the sink hears of the outcome: nothing where nothing had to be
    /// done, else the change or the failure.
    pub open spec fn notice(self, path: Seq<char>) -> Option<NoticeView> {
        match self {
            OutcomeView::AlreadyWritable => None,
            OutcomeView::Unlocked => Some(NoticeView::Unlocked { path }),
            OutcomeView::Failed { failure } => Some(NoticeView::Failed { failure }),
        }
    }
}

impl View for Outcome {
    type V = OutcomeView;

    open spec fn view(&self) -> OutcomeView {
        match *self {
            Outcome::AlreadyWritable => OutcomeView::AlreadyWritable,
            Outcome::Unlocked => OutcomeView::Unlocked,
            Outcome::Failed { failure } => OutcomeView::Failed { failure: failure@ },
        }
    }
}

/// What the caller does after the probe.
#[derive(Clone, Debug, PartialEq, Eq)]
pub enum UnlockStep {
    /// Nothing is to be written; this is the outcome.
    Finished { outcome: Outcome },
    /// Write this permission state to this path, then call [`persisted`].
    Persist { path: String, permissions: Permissions },
}

/// Mathematical value of an [`UnlockStep`].
pub enum UnlockStepView {
    Finished { outcome: OutcomeView },
    Persist { path: Seq<char>, permissions: Permissions },
}

impl View for UnlockStep {
    type V = UnlockStepView;

    open spec fn view(&self) -> UnlockStepView {
        match *self {
            UnlockStep::Finished { outcome } => UnlockStepView::Finished { outcome: outcome@ },
            UnlockStep::Persist { path, permissions } => UnlockStepView::Persist {
                path: path@,
                permissions,
            },
        }
    }
}

/// The step that follows a probe: a failed probe ends in a metadata failure
/// for that path, a writable path needs nothing, and a write-protected one
/// needs its cleared state written to that same path.
pub open spec fn unlock_step(path: Seq<char>, probe: ProbeView) -> UnlockStepView {
    match probe {
        ProbeView::Failed { cause } => UnlockStepView::Finished {
            outcome: OutcomeView::Failed { failure: FailureView::Metadata { path, cause } },
        },
        ProbeView::Found { permissions } => if permissions.write_protected() {
            UnlockStepView::Persist { path, permissions: permissions.cleared() }
        } else {
            UnlockStepView::Finished { outcome: OutcomeView::AlreadyWritable }
        },
    }
}

/// Mathematical value of the result of a write.
pub open spec fn written_view(written: Result<(), String>) -> Result<(), Seq<char>> {
    match written {
        Ok(_) => Ok(()),
        Err(cause) => Err(cause@),
    }
}

/// The outcome that follows a write: the path is unlocked, or the write
/// failed for that path.
pub open spec fn persisted_outcome(path: Seq<char>, written: Result<(), Seq<char>>) -> OutcomeView {
    match written {
        Ok(_) => OutcomeView::Unlocked,
        Err(cause) => OutcomeView::Failed { failure: FailureView::PermissionWrite { path, cause } },
    }
}

/// Decides what to do with `path`, given what reading its permission state
/// gave.
pub fn unlock_path(path: &str, probe: Probe) -> (step: UnlockStep)
    ensures
        step@ == unlock_step(path@, probe@),
{
    match probe {
        Probe::Failed { cause } => UnlockStep::Finished {
            outcome: Outcome::Failed { failure: Failure::Metadata { path: path.to_owned(), cause } },
        },
        Probe::Found { permissions } => {
            if permissions.is_write_protected() {
                UnlockStep::Persist {
                    path: path.to_owned(),
                    permissions: permissions.clear_write_protection(),
                }
            } else {
                UnlockStep::Finished { outcome: Outcome::AlreadyWritable }
            }
        },
    }
}

/// Concludes the unlocking of `path`, given what writing the cleared state
/// gave.
pub fn persisted(path: &str, written: Result<(), String>) -> (outcome: Outcome)
    ensures
        outcome@ == persisted_outcome(path@, written_view(written)),
{
    match written {
        Ok(_) => Outcome::Unlocked,
        Err(cause) => Outcome::Failed {
            failure: Failure::PermissionWrite { path: path.to_owned(), cause },
        },
    }
}

impl Outcome {
    /// Whether the path is writable now as far as this run knows.
    pub fn is_success(&self) -> (success: bool)
        ensures
            success == self@.is_success(),
    {
        match self {
            Outcome::Failed { .. } => false,
            _ => true,
        }
    }

    /// The notice for the sink, if the outcome is worth one.
    pub fn notice(self, path: &str) -> (notice: Option<Notice>)
        ensures
            notice_view(notice) == self@.notice(path@),
    {
        match self {
            Outcome::AlreadyWritable => None,
            Outcome::Unlocked => Some(Notice::Unlocked { path: path.to_owned() }),
            Outcome::Failed { failure } => Some(Notice::Failed { failure }),
        }
    }
}

} // verus!
