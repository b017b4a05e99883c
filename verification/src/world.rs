//! A model of a file system, and of a caller that follows the protocols of
//! this crate on it.
//!
//! The model holds what the protocols can observe and change, and what they
//! must leave alone: which paths exist, which of them are directories, what
//! they hold, their permission state, and on which paths the system refuses
//! to read or to write that state. A [`Run`] is such a world together with
//! the notices given to the sink so far. Its steps are built from the same
//! decisions that the executable functions are proved to take, so what is
//! proved of a run holds of every caller that does what the functions ask,
//! on a system that behaves like the model.

use vstd::prelude::*;
use crate::path_unlocker::{persisted_outcome, unlock_step, OutcomeView, ProbeView, UnlockStepView};
use crate::permissions::Permissions;
use crate::report::NoticeView;
use crate::tree_walker::{
    root_notice,
    root_plan,
    search_notice,
    ListedView,
    RootKind,
    RootPlan,
    SubdirSearchView,
};

verus! {

/// What the model knows of one existing path.
pub struct Node {
    pub is_dir: bool,
    pub permissions: Permissions,
    pub contents: Seq<u8>,
}

/// A file system as far as unlocking is concerned.
pub struct World {
    /// The paths that exist.
    pub nodes: Map<Seq<char>, Node>,
    /// Paths whose permission state the system refuses to read.
    pub read_denied: Set<Seq<char>>,
    /// Paths whose permission state the system refuses to write.
    pub write_denied: Set<Seq<char>>,
    /// The cause that the system gives when it refuses an operation on a
    /// path.
    pub refusal: spec_fn(Seq<char>) -> Seq<char>,
}

impl World {
    /// Whether something exists at `path`.
    pub open spec fn contains(self, path: Seq<char>) -> bool {
        self.nodes.contains_key(path)
    }

    /// Whether `path` exists and is not write-protected.
    pub open spec fn writable(self, path: Seq<char>) -> bool {
        self.contains(path) && !self.nodes[path].permissions.write_protected()
    }

    /// Whether unlocking `path` changes it: it exists, is write-protected,
    /// and the system lets its permission state be read and written.
    pub open spec fn unlockable(self, path: Seq<char>) -> bool {
        &&& self.contains(path)
        &&& self.nodes[path].permissions.write_protected()
        &&& !self.read_denied.contains(path)
        &&& !self.write_denied.contains(path)
    }

    /// What the caller learns when it asks what the root of a walk is.
    pub open spec fn root_kind(self, path: Seq<char>) -> RootKind {
        RootKind::of(self.contains(path), self.contains(path) && self.nodes[path].is_dir)
    }

    /// What the caller learns when it reads the permission state of `path`.
    pub open spec fn probe(self, path: Seq<char>) -> ProbeView {
        if self.contains(path) && !self.read_denied.contains(path) {
            ProbeView::Found { permissions: self.nodes[path].permissions }
        } else {
            ProbeView::Failed { cause: (self.refusal)(path) }
        }
    }

    /// Whether the system accepts a write of the permission state of `path`.
    pub open spec fn accepts_write(self, path: Seq<char>) -> bool {
        self.contains(path) && !self.write_denied.contains(path)
    }

    /// What the caller learns when it writes `permissions` to `path`.
    pub open spec fn write_result(self, path: Seq<char>) -> Result<(), Seq<char>> {
        if self.accepts_write(path) {
            Ok(())
        } else {
            Err((self.refusal)(path))
        }
    }

    /// The world after the caller wrote `permissions` to `path`: only the
    /// permission state of that path differs, and only if the write was
    /// accepted.
    pub open spec fn written(self, path: Seq<char>, permissions: Permissions) -> World {
        if self.accepts_write(path) {
            World {
                nodes: self.nodes.insert(path, Node { permissions, ..self.nodes[path] }),
                ..self
            }
        } else {
            self
        }
    }

    /// How unlocking `path` ends for a caller that probes, takes the step
    /// decided for the probe, and concludes a write with its result.
    pub open spec fn unlock_outcome(self, path: Seq<char>) -> OutcomeView {
        match unlock_step(path, self.probe(path)) {
            UnlockStepView::Finished { outcome } => outcome,
            UnlockStepView::Persist { path: target, permissions } => persisted_outcome(
                path,
                self.write_result(target),
            ),
        }
    }

    /// The world after that caller unlocked `path`.
    pub open spec fn unlocked(self, path: Seq<char>) -> World {
        match unlock_step(path, self.probe(path)) {
            UnlockStepView::Finished { outcome } => self,
            UnlockStepView::Persist { path: target, permissions } => self.written(target, permissions),
        }
    }

    /// The world in which write protection is cleared on every unlockable
    /// path of `paths`, and nothing else differs.
    pub open spec fn with_unlocked(self, paths: Set<Seq<char>>) -> World {
        World {
            nodes: Map::new(
                |p: Seq<char>| self.nodes.contains_key(p),
                |p: Seq<char>|
                    if paths.contains(p) && self.unlockable(p) {
                        Node { permissions: self.nodes[p].permissions.cleared(), ..self.nodes[p] }
                    } else {
                        self.nodes[p]
                    },
            ),
            ..self
        }
    }
}

/// A world and what the sink has heard so far.
pub struct Run {
    pub world: World,
    pub notices: Seq<NoticeView>,
}

impl Run {
    /// A run that has done nothing yet.
    pub open spec fn begin(world: World) -> Run {
        Run { world, notices: Seq::empty() }
    }

    /// The run after the sink got `notice`.
    pub open spec fn note(self, notice: NoticeView) -> Run {
        Run { notices: self.notices.push(notice), ..self }
    }

    /// The run after the sink got `notice`, if there is one.
    pub open spec fn note_if(self, notice: Option<NoticeView>) -> Run {
        match notice {
            Some(n) => self.note(n),
            None => self,
        }
    }

    /// The run after `path` was unlocked and the outcome reported.
    pub open spec fn unlock(self, path: Seq<char>) -> Run {
        Run { world: self.world.unlocked(path), ..self }.note_if(
            self.world.unlock_outcome(path).notice(path),
        )
    }

    /// The run after one item of a plain walk: an entry is unlocked, an
    /// item that could not be read is passed.
    pub open spec fn visit(self, item: ListedView) -> Run {
        match item.visited() {
            Some(path) => self.unlock(path),
            None => self,
        }
    }

    /// The run after the items of `listing` were visited in order.
    pub open spec fn walk(self, listing: Seq<ListedView>) -> Run
        decreases listing.len(),
    {
        if listing.len() == 0 {
            self
        } else {
            self.walk(listing.drop_last()).visit(listing.last())
        }
    }

    /// The run after the plain walk of the root `path`, where `listing` is
    /// what enumerating the root gives if it is enumerated.
    pub open spec fn unlock_recursive(self, path: Seq<char>, listing: Seq<ListedView>) -> Run {
        let kind = self.world.root_kind(path);
        let opened = self.note(root_notice(path, kind));
        match root_plan(kind) {
            RootPlan::Skip => opened,
            RootPlan::Single => opened.unlock(path),
            RootPlan::Tree => opened.walk(listing),
        }
    }

    /// The run after the filtered walk from `start` for directories named
    /// `target`, where `listing` is what enumerating the start gives and
    /// `below(root)` is what enumerating an unlock root gives.
    pub open spec fn unlock_subdir_recursive(
        self,
        start: Seq<char>,
        target: Seq<char>,
        listing: Seq<ListedView>,
        below: spec_fn(Seq<char>) -> Seq<ListedView>,
    ) -> Run {
        let kind = self.world.root_kind(start);
        let opened = self.note(search_notice(start, kind, target));
        if kind == RootKind::Missing {
            opened
        } else {
            let end = SearchRun { run: opened, search: SubdirSearchView::begin(start, target) }.walk(
                listing,
                below,
            );
            end.run.note(end.search.summary())
        }
    }
}

/// A run in the middle of a filtered walk.
pub struct SearchRun {
    pub run: Run,
    pub search: SubdirSearchView,
}

impl SearchRun {
    /// The search run after one item: an unlock root is announced, walked
    /// as a root of its own and counted; anything else is passed.
    pub open spec fn visit(
        self,
        item: ListedView,
        below: spec_fn(Seq<char>) -> Seq<ListedView>,
    ) -> SearchRun {
        let announced = self.run.note_if(self.search.announces(item));
        SearchRun {
            run: match item {
                ListedView::Entry { entry } => if entry.is_unlock_root(self.search.target) {
                    announced.unlock_recursive(entry.path, below(entry.path))
                } else {
                    announced
                },
                ListedView::Unreadable => announced,
            },
            search: self.search.after(item),
        }
    }

    /// The search run after the items of `listing` were visited in order.
    pub open spec fn walk(
        self,
        listing: Seq<ListedView>,
        below: spec_fn(Seq<char>) -> Seq<ListedView>,
    ) -> SearchRun
        decreases listing.len(),
    {
        if listing.len() == 0 {
            self
        } else {
            self.walk(listing.drop_last(), below).visit(listing.last(), below)
        }
    }
}

/// The paths of the entries of a listing, which are the paths that a plain
/// walk of it unlocks.
pub open spec fn visited_paths(listing: Seq<ListedView>) -> Set<Seq<char>> {
    Set::new(
        |p: Seq<char>|
            exists|i: int| 0 <= i < listing.len() && #[trigger] listing[i].visited() == Some(p),
    )
}

/// The paths that the plain walk of `root` unlocks in `world`: none where
/// the root is missing, the root alone where it is a file, and the entries
/// of its enumeration where it is a directory.
pub open spec fn walk_targets(world: World, root: Seq<char>, listing: Seq<ListedView>) -> Set<
    Seq<char>,
> {
    match world.root_kind(root) {
        RootKind::Missing => Set::empty(),
        RootKind::File => set![root],
        RootKind::Directory => visited_paths(listing),
    }
}

/// How many items of a listing are unlock roots for `target`.
pub open spec fn unlock_roots(listing: Seq<ListedView>, target: Seq<char>) -> nat
    decreases listing.len(),
{
    if listing.len() == 0 {
        0
    } else {
        unlock_roots(listing.drop_last(), target) + if listing.last().is_unlock_root(target) {
            1nat
        } else {
            0nat
        }
    }
}

/// The paths that a filtered walk unlocks in `world`: what the plain walk of
/// each unlock root of the listing unlocks.
pub open spec fn search_targets(
    world: World,
    listing: Seq<ListedView>,
    target: Seq<char>,
    below: spec_fn(Seq<char>) -> Seq<ListedView>,
) -> Set<Seq<char>> {
    Set::new(
        |p: Seq<char>|
            exists|i: int|
                0 <= i < listing.len() && (#[trigger] listing[i]).is_unlock_root(target)
                    && walk_targets(
                    world,
                    listing[i]->entry.path,
                    below(listing[i]->entry.path),
                ).contains(p),
    )
}

/// Whether no two entries of a listing have the same path.
pub open spec fn lists_each_path_once(listing: Seq<ListedView>) -> bool {
    forall|i: int, j: int|
        0 <= i < j < listing.len() && (#[trigger] listing[i]) is Entry && (#[trigger] listing[j]) is Entry
            ==> listing[i]->entry.path != listing[j]->entry.path
}

/// The paths of the unlock roots for `target` in a listing.
pub open spec fn unlock_root_paths(listing: Seq<ListedView>, target: Seq<char>) -> Set<Seq<char>> {
    Set::new(
        |p: Seq<char>|
            exists|i: int|
                0 <= i < listing.len() && (#[trigger] listing[i]).is_unlock_root(target)
                    && listing[i]->entry.path == p,
    )
}

} // verus!
