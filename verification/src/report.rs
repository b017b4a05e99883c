//! What can go wrong on a path, and what a run tells its sink.
//!
//! Nothing here ends a run. A failure belongs to one path; it is turned into
//! a notice of severity `Error` and the run goes on with the next path.

use vstd::prelude::*;

verus! {

/// How loud a notice is.
#[derive(Clone, Copy, Debug, PartialEq, Eq, Structural)]
pub enum Severity {
    Info,
    Warn,
    Error,
}

/// Why a path was left as it was.
#[derive(Clone, Debug, PartialEq, Eq)]
pub enum Failure {
    /// The root of a walk does not exist.
    NotFound { path: String },
    /// The permission state of the path could not be read.
    Metadata { path: String, cause: String },
    /// The permission state was read, but the cleared state could not be
    /// written back.
    PermissionWrite { path: String, cause: String },
}

/// Mathematical value of a [`Failure`].
pub enum FailureView {
    NotFound { path: Seq<char> },
    Metadata { path: Seq<char>, cause: Seq<char> },
    PermissionWrite { path: Seq<char>, cause: Seq<char> },
}

impl FailureView {
    /// The path that the failure is about.
    pub open spec fn path(self) -> Seq<char> {
        match self {
            FailureView::NotFound { path } => path,
            FailureView::Metadata { path, .. } => path,
            FailureView::PermissionWrite { path, .. } => path,
        }
    }
}

impl View for Failure {
    type V = FailureView;

    open spec fn view(&self) -> FailureView {
        match *self {
            Failure::NotFound { path } => FailureView::NotFound { path: path@ },
            Failure::Metadata { path, cause } => FailureView::Metadata { path: path@, cause: cause@ },
            Failure::PermissionWrite { path, cause } => FailureView::PermissionWrite {
                path: path@,
                cause: cause@,
            },
        }
    }
}

impl Failure {
    /// The path that the failure is about.
    pub fn path(&self) -> (path: &String)
        ensures
            path@ == self@.path(),
    {
        match self {
            Failure::NotFound { path } => path,
            Failure::Metadata { path, .. } => path,
            Failure::PermissionWrite { path, .. } => path,
        }
    }
}

/// One message for the sink of a run.
#[derive(Clone, Debug, PartialEq, Eq)]
pub enum Notice {
    /// The walk of an existing root begins.
    Processing { path: String },
    /// Write protection was cleared on the path.
    Unlocked { path: String },
    /// The path was skipped for the given reason.
    Failed { failure: Failure },
    /// The search for directories of a given name begins.
    Searching { target: String, start: String },
    /// A directory of the wanted name was found and becomes an unlock root.
    Found { path: String },
    /// The search ended without any directory of the wanted name.
    NoMatch { target: String, start: String },
    /// The search ended after `count` directories of the wanted name.
    Processed { count: u64, target: String },
}

/// Mathematical value of a [`Notice`].
pub enum NoticeView {
    Processing { path: Seq<char> },
    Unlocked { path: Seq<char> },
    Failed { failure: FailureView },
    Searching { target: Seq<char>, start: Seq<char> },
    Found { path: Seq<char> },
    NoMatch { target: Seq<char>, start: Seq<char> },
    Processed { count: nat, target: Seq<char> },
}

impl NoticeView {
    /// A failure is an error, an empty search a warning, the rest is
    /// information.
    pub open spec fn severity(self) -> Severity {
        match self {
            NoticeView::Failed { .. } => Severity::Error,
            NoticeView::NoMatch { .. } => Severity::Warn,
            _ => Severity::Info,
        }
    }
}

impl View for Notice {
    type V = NoticeView;

    open spec fn view(&self) -> NoticeView {
        match *self {
            Notice::Processing { path } => NoticeView::Processing { path: path@ },
            Notice::Unlocked { path } => NoticeView::Unlocked { path: path@ },
            Notice::Failed { failure } => NoticeView::Failed { failure: failure@ },
            Notice::Searching { target, start } => NoticeView::Searching {
                target: target@,
                start: start@,
            },
            Notice::Found { path } => NoticeView::Found { path: path@ },
            Notice::NoMatch { target, start } => NoticeView::NoMatch { target: target@, start: start@ },
            Notice::Processed { count, target } => NoticeView::Processed {
                count: count as nat,
                target: target@,
            },
        }
    }
}

impl Notice {
    /// The severity under which the sink files the notice.
    pub fn severity(&self) -> (severity: Severity)
        ensures
            severity == self@.severity(),
    {
        match self {
            Notice::Failed { .. } => Severity::Error,
            Notice::NoMatch { .. } => Severity::Warn,
            _ => Severity::Info,
        }
    }
}

/// Mathematical value of an optional notice.
pub open spec fn notice_view(notice: Option<Notice>) -> Option<NoticeView> {
    match notice {
        Some(n) => Some(n@),
        None => None,
    }
}

} // verus!
