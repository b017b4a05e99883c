//! Walking a root.
//!
//! A plain walk starts with [`unlock_recursive`]: the caller says what the
//! root is and learns whether to skip it, to unlock the one file, or to
//! enumerate the tree. While enumerating, it hands each item to [`visit`],
//! which names the path to unlock or tells it to pass on.
//!
//! A filtered walk starts with [`unlock_subdir_recursive`] and hands each
//! item to [`SubdirSearch::visit`]. Only directories of the wanted name
//! become unlock roots, each of them the root of a plain walk of its own;
//! everything else is walked through and left alone.
//!
//! The enumeration is lazy and may fail item by item: an item that could not
//! be read is [`Listed::Unreadable`], which is neither the end of the
//! enumeration nor a reason to end the walk.

use vstd::prelude::*;
use crate::report::{notice_view, Failure, FailureView, Notice, NoticeView};

verus! {

/// What the root of a walk is at the moment the walk begins.
#[derive(Clone, Copy, Debug, PartialEq, Eq, Structural)]
pub enum RootKind {
    /// There is nothing at the path.
    Missing,
    /// Something that is not a directory.
    File,
    /// A directory.
    Directory,
}

impl RootKind {
    /// The kind of a root of which the system says whether it exists and
    /// whether it is a directory. Existence is asked first: a path that does
    /// not exist is missing, whatever the second answer.
    pub open spec fn of(exists: bool, is_dir: bool) -> RootKind {
        if !exists {
            RootKind::Missing
        } else if is_dir {
            RootKind::Directory
        } else {
            RootKind::File
        }
    }

    /// Computes [`RootKind::of`].
    pub fn classify(exists: bool, is_dir: bool) -> (kind: RootKind)
        ensures
            kind == RootKind::of(exists, is_dir),
    {
        if !exists {
            RootKind::Missing
        } else if is_dir {
            RootKind::Directory
        } else {
            RootKind::File
        }
    }
}

/// What to do with the root of a plain walk.
#[derive(Clone, Copy, Debug, PartialEq, Eq, Structural)]
pub enum RootPlan {
    /// Leave it: there is nothing to unlock.
    Skip,
    /// Unlock the root itself and nothing else.
    Single,
    /// Enumerate the root and all that is below it, and unlock each entry.
    Tree,
}

/// The plan for a root of the given kind.
pub open spec fn root_plan(kind: RootKind) -> RootPlan {
    match kind {
        RootKind::Missing => RootPlan::Skip,
        RootKind::File => RootPlan::Single,
        RootKind::Directory => RootPlan::Tree,
    }
}

/// The notice that opens a plain walk: a missing root is reported as not
/// found, any other as being processed.
pub open spec fn root_notice(path: Seq<char>, kind: RootKind) -> NoticeView {
    match kind {
        RootKind::Missing => NoticeView::Failed { failure: FailureView::NotFound { path } },
        _ => NoticeView::Processing { path },
    }
}

/// How a plain walk begins.
#[derive(Clone, Debug, PartialEq, Eq)]
pub struct WalkStart {
    pub plan: RootPlan,
    pub notice: Notice,
}

/// Begins the plain walk of `path`.
pub fn unlock_recursive(path: &str, root: RootKind) -> (start: WalkStart)
    ensures
        start.plan == root_plan(root),
        start.notice@ == root_notice(path@, root),
{
    match root {
        RootKind::Missing => WalkStart {
            plan: RootPlan::Skip,
            notice: Notice::Failed { failure: Failure::NotFound { path: path.to_owned() } },
        },
        RootKind::File => WalkStart {
            plan: RootPlan::Single,
            notice: Notice::Processing { path: path.to_owned() },
        },
        RootKind::Directory => WalkStart {
            plan: RootPlan::Tree,
            notice: Notice::Processing { path: path.to_owned() },
        },
    }
}

/// One entry that an enumeration produced.
#[derive(Clone, Debug, PartialEq, Eq)]
pub struct Entry {
    /// Where the entry is.
    pub path: String,
    /// Its base name, if the path has one.
    pub name: Option<String>,
    /// Whether it is a directory.
    pub is_dir: bool,
}

/// Mathematical value of an [`Entry`].
pub struct EntryView {
    pub path: Seq<char>,
    pub name: Option<Seq<char>>,
    pub is_dir: bool,
}

impl EntryView {
    /// Whether the entry is a directory whose base name is exactly `target`.
    pub open spec fn is_unlock_root(self, target: Seq<char>) -> bool {
        self.is_dir && self.name == Some(target)
    }
}

impl View for Entry {
    type V = EntryView;

    open spec fn view(&self) -> EntryView {
        EntryView {
            path: self.path@,
            name: match self.name {
                Some(name) => Some(name@),
                None => None,
            },
            is_dir: self.is_dir,
        }
    }
}

impl Entry {
    /// Whether the entry is a directory whose base name is exactly `target`.
    pub fn is_unlock_root(&self, target: &String) -> (matches: bool)
        ensures
            matches == self@.is_unlock_root(target@),
    {
        match &self.name {
            Some(name) => self.is_dir && *name == *target,
            None => false,
        }
    }
}

/// One item of an enumeration.
#[derive(Clone, Debug, PartialEq, Eq)]
pub enum Listed {
    /// An entry.
    Entry { entry: Entry },
    /// An entry that could not be read. The enumeration goes on after it.
    Unreadable,
}

/// Mathematical value of a [`Listed`].
pub enum ListedView {
    Entry { entry: EntryView },
    Unreadable,
}

impl ListedView {
    /// The path that a plain walk unlocks at this item, if any.
    pub open spec fn visited(self) -> Option<Seq<char>> {
        match self {
            ListedView::Entry { entry } => Some(entry.path),
            ListedView::Unreadable => None,
        }
    }

    /// Whether a search for `target` makes this item an unlock root.
    pub open spec fn is_unlock_root(self, target: Seq<char>) -> bool {
        match self {
            ListedView::Entry { entry } => entry.is_unlock_root(target),
            ListedView::Unreadable => false,
        }
    }
}

impl View for Listed {
    type V = ListedView;

    open spec fn view(&self) -> ListedView {
        match *self {
            Listed::Entry { entry } => ListedView::Entry { entry: entry@ },
            Listed::Unreadable => ListedView::Unreadable,
        }
    }
}

/// Mathematical value of an optional path.
pub open spec fn path_view(path: Option<&str>) -> Option<Seq<char>> {
    match path {
        Some(p) => Some(p@),
        None => None,
    }
}

/// The path to unlock at this item of a plain walk: that of every entry,
/// and none for an item that could not be read.
pub fn visit(item: &Listed) -> (path: Option<&str>)
    ensures
        path_view(path) == item@.visited(),
{
    match item {
        Listed::Entry { entry } => Some(entry.path.as_str()),
        Listed::Unreadable => None,
    }
}

/// A search for directories of one name, under way.
#[derive(Clone, Debug, PartialEq, Eq)]
pub struct SubdirSearch {
    target: String,
    start: String,
    found: u64,
}

/// Mathematical value of a [`SubdirSearch`].
pub struct SubdirSearchView {
    /// The wanted base name.
    pub target: Seq<char>,
    /// Where the search started.
    pub start: Seq<char>,
    /// How many unlock roots it has met so far.
    pub found: nat,
}

impl SubdirSearchView {
    /// The search as it begins.
    pub open spec fn begin(start: Seq<char>, target: Seq<char>) -> SubdirSearchView {
        SubdirSearchView { target, start, found: 0 }
    }

    /// The search after `item`: an unlock root is counted.
    pub open spec fn after(self, item: ListedView) -> SubdirSearchView {
        if item.is_unlock_root(self.target) {
            SubdirSearchView { found: self.found + 1, ..self }
        } else {
            self
        }
    }

    /// What the search says of `item`: an unlock root is announced, anything
    /// else is passed in silence.
    pub open spec fn announces(self, item: ListedView) -> Option<NoticeView> {
        match item {
            ListedView::Entry { entry } => if entry.is_unlock_root(self.target) {
                Some(NoticeView::Found { path: entry.path })
            } else {
                None
            },
            ListedView::Unreadable => None,
        }
    }

    /// The closing notice: a warning where nothing was found, else the
    /// number of unlock roots.
    pub open spec fn summary(self) -> NoticeView {
        if self.found == 0 {
            NoticeView::NoMatch { target: self.target, start: self.start }
        } else {
            NoticeView::Processed { count: self.found, target: self.target }
        }
    }
}

impl View for SubdirSearch {
    type V = SubdirSearchView;

    closed spec fn view(&self) -> SubdirSearchView {
        SubdirSearchView { target: self.target@, start: self.start@, found: self.found as nat }
    }
}

/// How a filtered walk begins.
#[derive(Clone, Debug, PartialEq, Eq)]
pub struct SearchStart {
    /// The search, unless the start is missing.
    pub search: Option<SubdirSearch>,
    pub notice: Notice,
}

/// The notice that opens a filtered walk.
pub open spec fn search_notice(start: Seq<char>, kind: RootKind, target: Seq<char>) -> NoticeView {
    match kind {
        RootKind::Missing => NoticeView::Failed { failure: FailureView::NotFound { path: start } },
        _ => NoticeView::Searching { target, start },
    }
}

/// Begins the search for directories named `target` at and below `start`.
/// There is a search exactly if the start exists; it has found nothing yet.
pub fn unlock_subdir_recursive(start: &str, root: RootKind, target: &str) -> (begin: SearchStart)
    ensures
        begin.notice@ == search_notice(start@, root, target@),
        root == RootKind::Missing <==> begin.search is None,
        begin.search matches Some(search) ==> search@ == SubdirSearchView::begin(start@, target@),
{
    match root {
        RootKind::Missing => SearchStart {
            search: None,
            notice: Notice::Failed { failure: Failure::NotFound { path: start.to_owned() } },
        },
        _ => SearchStart {
            search: Some(
                SubdirSearch { target: target.to_owned(), start: start.to_owned(), found: 0 },
            ),
            notice: Notice::Searching { target: target.to_owned(), start: start.to_owned() },
        },
    }
}

impl SubdirSearch {
    /// The wanted base name.
    pub fn target(&self) -> (target: &String)
        ensures
            target@ == self@.target,
    {
        &self.target
    }

    /// Where the search started.
    pub fn start(&self) -> (start: &String)
        ensures
            start@ == self@.start,
    {
        &self.start
    }

    /// How many unlock roots the search has met so far.
    pub fn found(&self) -> (found: u64)
        ensures
            found == self@.found,
    {
        self.found
    }

    /// Takes the next item of the enumeration. Where the result is a notice,
    /// the item is an unlock root: the caller hands the notice to the sink
    /// and then walks that entry as a root of its own. Where it is none, the
    /// caller passes on.
    pub fn visit(&mut self, item: &Listed) -> (notice: Option<Notice>)
        requires
            old(self)@.found < u64::MAX,
        ensures
            final(self)@ == old(self)@.after(item@),
            notice_view(notice) == old(self)@.announces(item@),
            notice is Some <==> item@.is_unlock_root(old(self)@.target),
    {
        match item {
            Listed::Entry { entry } => {
                if entry.is_unlock_root(&self.target) {
                    self.found = self.found + 1;
                    Some(Notice::Found { path: entry.path.clone() })
                } else {
                    None
                }
            },
            Listed::Unreadable => None,
        }
    }

    /// Ends the search with its closing notice.
    pub fn finish(self) -> (notice: Notice)
        ensures
            notice@ == self@.summary(),
    {
        if self.found == 0 {
            Notice::NoMatch { target: self.target, start: self.start }
        } else {
            Notice::Processed { count: self.found, target: self.target }
        }
    }
}

} // verus!
