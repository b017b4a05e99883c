//! What a caller achieves that follows the protocols of this crate on a
//! world of the model.

use vstd::prelude::*;
use crate::path_unlocker::{persisted_outcome, unlock_step, OutcomeView, ProbeView, UnlockStepView};
use crate::permissions::{lemma_cleared, Permissions};
use crate::report::{FailureView, NoticeView, Severity};
use crate::tree_walker::{
    root_notice,
    search_notice,
    EntryView,
    ListedView,
    RootKind,
    SubdirSearchView,
};
use crate::world::{
    lists_each_path_once,
    search_targets,
    unlock_root_paths,
    unlock_roots,
    visited_paths,
    walk_targets,
    Run,
    SearchRun,
    World,
};

verus! {

/// The protocol for one path, whatever the system: a write-protected path is
/// asked to be written, to that path and with a state that is writable for
/// every class and otherwise as before; and once that state is what a probe
/// finds, the protocol asks for nothing more and reports success.
pub proof fn unlock_step_clears_and_then_rests(path: Seq<char>, permissions: Permissions)
    requires
        permissions.write_protected(),
    ensures
        unlock_step(path, ProbeView::Found { permissions }) == (UnlockStepView::Persist {
            path,
            permissions: permissions.cleared(),
        }),
        !permissions.cleared().write_protected(),
        permissions.cleared().every_class_may_write(),
        permissions.cleared().same_apart_from_writing(permissions),
        unlock_step(path, ProbeView::Found { permissions: permissions.cleared() }) == (
        UnlockStepView::Finished { outcome: OutcomeView::AlreadyWritable }),
        OutcomeView::AlreadyWritable.is_success(),
        persisted_outcome(path, Ok(())).is_success(),
{
    lemma_cleared(permissions);
}

/// Unlocking one path ends in exactly one of four ways, decided by the
/// world: a path that is missing or cannot be read fails on its metadata; a
/// path that is writable already is left alone; a write-protected path is
/// unlocked if the system accepts the write, and fails on the write if not.
/// Whichever it is, the world afterwards is the one in which that path alone
/// was unlocked if it could be.
pub proof fn lemma_unlock_path(world: World, path: Seq<char>)
    ensures
        world.unlocked(path) == world.with_unlocked(set![path]),
        world.unlock_outcome(path) == if !world.contains(path) || world.read_denied.contains(path) {
            OutcomeView::Failed {
                failure: FailureView::Metadata { path, cause: (world.refusal)(path) },
            }
        } else if !world.nodes[path].permissions.write_protected() {
            OutcomeView::AlreadyWritable
        } else if world.write_denied.contains(path) {
            OutcomeView::Failed {
                failure: FailureView::PermissionWrite { path, cause: (world.refusal)(path) },
            }
        } else {
            OutcomeView::Unlocked
        },
{
    assert(world.unlocked(path).nodes =~= world.with_unlocked(set![path]).nodes);
}

/// Unlocking changes no path but the given one, and of that one nothing but
/// its write protection: no path is created or removed, no directory becomes
/// a file, what a path holds stays, and the system refuses tomorrow what it
/// refuses today.
pub proof fn unlocking_touches_one_path(world: World, path: Seq<char>)
    ensures
        world.unlocked(path).nodes.dom() == world.nodes.dom(),
        forall|other: Seq<char>| other != path ==> world.unlocked(path).nodes[other] == world.nodes[other],
        world.contains(path) ==> {
            &&& world.unlocked(path).nodes[path].is_dir == world.nodes[path].is_dir
            &&& world.unlocked(path).nodes[path].contents == world.nodes[path].contents
            &&& world.unlocked(path).nodes[path].permissions.same_apart_from_writing(
                world.nodes[path].permissions,
            )
        },
        world.unlocked(path).read_denied == world.read_denied,
        world.unlocked(path).write_denied == world.write_denied,
        world.unlocked(path).refusal == world.refusal,
{
    assert(world.unlocked(path).nodes.dom() =~= world.nodes.dom());
    if world.contains(path) {
        lemma_cleared(world.nodes[path].permissions);
    }
}

/// Unlocking a set of paths changes nothing but write protection, and that
/// only towards writable: no path is created or removed, no directory
/// becomes a file, what a path holds stays, and no writable path is touched.
pub proof fn lemma_with_unlocked_changes_write_protection_only(world: World, paths: Set<Seq<char>>)
    ensures
        world.with_unlocked(paths).nodes.dom() == world.nodes.dom(),
        forall|p: Seq<char>| #[trigger]
            world.contains(p) ==> {
                &&& world.with_unlocked(paths).nodes[p].is_dir == world.nodes[p].is_dir
                &&& world.with_unlocked(paths).nodes[p].contents == world.nodes[p].contents
                &&& world.with_unlocked(paths).nodes[p].permissions.same_apart_from_writing(
                    world.nodes[p].permissions,
                )
                &&& world.writable(p) ==> world.with_unlocked(paths).nodes[p] == world.nodes[p]
            },
        world.with_unlocked(paths).read_denied == world.read_denied,
        world.with_unlocked(paths).write_denied == world.write_denied,
        world.with_unlocked(paths).refusal == world.refusal,
{
    assert(world.with_unlocked(paths).nodes.dom() =~= world.nodes.dom());
    assert forall|p: Seq<char>| #[trigger] world.contains(p) implies world.with_unlocked(
        paths,
    ).nodes[p].permissions.same_apart_from_writing(world.nodes[p].permissions) by {
        lemma_cleared(world.nodes[p].permissions);
    }
}

/// Unlocking a set of paths and then another is unlocking their union.
pub proof fn lemma_with_unlocked_union(world: World, first: Set<Seq<char>>, second: Set<Seq<char>>)
    ensures
        world.with_unlocked(first).with_unlocked(second) == world.with_unlocked(first.union(second)),
{
    let once = world.with_unlocked(first);
    let twice = once.with_unlocked(second);
    let both = world.with_unlocked(first.union(second));
    assert forall|p: Seq<char>| twice.nodes.contains_key(p) implies twice.nodes[p] == both.nodes[p] by {
        lemma_cleared(world.nodes[p].permissions);
    }
    assert(twice.nodes =~= both.nodes);
}

/// Unlocking no path at all leaves the world as it is.
pub proof fn lemma_with_unlocked_nothing(world: World)
    ensures
        world.with_unlocked(Set::empty()) == world,
{
    assert(world.with_unlocked(Set::empty()).nodes =~= world.nodes);
}

/// The world after a plain walk of a listing is the one in which every
/// unlockable path among its entries was unlocked.
pub proof fn lemma_walk_world(run: Run, listing: Seq<ListedView>)
    ensures
        run.walk(listing).world == run.world.with_unlocked(visited_paths(listing)),
    decreases listing.len(),
{
    if listing.len() == 0 {
        assert(visited_paths(listing) =~= Set::empty());
        lemma_with_unlocked_nothing(run.world);
    } else {
        let front = listing.drop_last();
        let before = run.walk(front);
        lemma_walk_world(run, front);
        lemma_visited_paths_push(front, listing.last());
        assert(front.push(listing.last()) =~= listing);
        match listing.last().visited() {
            Some(path) => {
                lemma_unlock_path(before.world, path);
                lemma_with_unlocked_union(run.world, visited_paths(front), set![path]);
            },
            None => {},
        }
    }
}

/// The paths visited in a listing with one more item.
pub proof fn lemma_visited_paths_push(front: Seq<ListedView>, item: ListedView)
    ensures
        visited_paths(front.push(item)) == match item.visited() {
            Some(path) => visited_paths(front).union(set![path]),
            None => visited_paths(front),
        },
{
    let whole = front.push(item);
    let expected = match item.visited() {
        Some(path) => visited_paths(front).union(set![path]),
        None => visited_paths(front),
    };
    assert forall|p: Seq<char>| visited_paths(whole).contains(p) implies expected.contains(p) by {
        let i = choose|i: int| 0 <= i < whole.len() && #[trigger] whole[i].visited() == Some(p);
        if i < front.len() {
            assert(front[i].visited() == Some(p));
        }
    }
    assert forall|p: Seq<char>| expected.contains(p) implies visited_paths(whole).contains(p) by {
        if visited_paths(front).contains(p) {
            let i = choose|i: int| 0 <= i < front.len() && #[trigger] front[i].visited() == Some(p);
            assert(whole[i].visited() == Some(p));
        } else {
            assert(whole[front.len() as int].visited() == Some(p));
        }
    }
    assert(visited_paths(whole) =~= expected);
}

/// The world after the plain walk of a root is the one in which every
/// unlockable path among the targets of the walk was unlocked.
pub proof fn lemma_unlock_recursive_world(run: Run, root: Seq<char>, listing: Seq<ListedView>)
    ensures
        run.unlock_recursive(root, listing).world == run.world.with_unlocked(
            walk_targets(run.world, root, listing),
        ),
{
    let opened = run.note(root_notice(root, run.world.root_kind(root)));
    match run.world.root_kind(root) {
        RootKind::Missing => {
            lemma_with_unlocked_nothing(run.world);
        },
        RootKind::File => {
            lemma_unlock_path(run.world, root);
        },
        RootKind::Directory => {
            lemma_walk_world(opened, listing);
        },
    }
}

/// Unlocking paths changes the kind of no root, and so the targets of no
/// walk.
pub proof fn lemma_with_unlocked_keeps_targets(
    world: World,
    paths: Set<Seq<char>>,
    root: Seq<char>,
    listing: Seq<ListedView>,
)
    ensures
        world.with_unlocked(paths).root_kind(root) == world.root_kind(root),
        walk_targets(world.with_unlocked(paths), root, listing) == walk_targets(world, root, listing),
{
}

/// The targets of a search over a listing with one more item.
pub proof fn lemma_search_targets_push(
    world: World,
    front: Seq<ListedView>,
    item: ListedView,
    target: Seq<char>,
    below: spec_fn(Seq<char>) -> Seq<ListedView>,
)
    ensures
        search_targets(world, front.push(item), target, below) == if item.is_unlock_root(target) {
            search_targets(world, front, target, below).union(
                walk_targets(world, item->entry.path, below(item->entry.path)),
            )
        } else {
            search_targets(world, front, target, below)
        },
{
    let whole = front.push(item);
    let old_targets = search_targets(world, front, target, below);
    let expected = if item.is_unlock_root(target) {
        old_targets.union(walk_targets(world, item->entry.path, below(item->entry.path)))
    } else {
        old_targets
    };
    assert forall|p: Seq<char>| search_targets(world, whole, target, below).contains(p) implies expected.contains(
        p,
    ) by {
        let i = choose|i: int|
            0 <= i < whole.len() && (#[trigger] whole[i]).is_unlock_root(target) && walk_targets(
                world,
                whole[i]->entry.path,
                below(whole[i]->entry.path),
            ).contains(p);
        if i < front.len() {
            assert(front[i] == whole[i]);
        }
    }
    assert forall|p: Seq<char>| expected.contains(p) implies search_targets(
        world,
        whole,
        target,
        below,
    ).contains(p) by {
        if old_targets.contains(p) {
            let i = choose|i: int|
                0 <= i < front.len() && (#[trigger] front[i]).is_unlock_root(target)
                    && walk_targets(
                    world,
                    front[i]->entry.path,
                    below(front[i]->entry.path),
                ).contains(p);
            assert(whole[i] == front[i]);
        } else {
            assert(whole[front.len() as int] == item);
        }
    }
    assert(search_targets(world, whole, target, below) =~= expected);
}

/// A filtered walk of a listing counts the unlock roots among its items, and
/// leaves the world in which every unlockable path among the targets of
/// their walks was unlocked.
pub proof fn lemma_search_walk(
    search: SearchRun,
    listing: Seq<ListedView>,
    below: spec_fn(Seq<char>) -> Seq<ListedView>,
)
    ensures
        search.walk(listing, below).search == (SubdirSearchView {
            found: search.search.found + unlock_roots(listing, search.search.target),
            ..search.search
        }),
        search.walk(listing, below).run.world == search.run.world.with_unlocked(
            search_targets(search.run.world, listing, search.search.target, below),
        ),
    decreases listing.len(),
{
    let world = search.run.world;
    let target = search.search.target;
    if listing.len() == 0 {
        assert(search_targets(world, listing, target, below) =~= Set::empty());
        lemma_with_unlocked_nothing(world);
    } else {
        let front = listing.drop_last();
        let item = listing.last();
        let before = search.walk(front, below);
        lemma_search_walk(search, front, below);
        lemma_search_targets_push(world, front, item, target, below);
        assert(front.push(item) =~= listing);
        let so_far = search_targets(world, front, target, below);
        if item.is_unlock_root(target) {
            let root = item->entry.path;
            let announced = before.run.note_if(before.search.announces(item));
            lemma_unlock_recursive_world(announced, root, below(root));
            lemma_with_unlocked_keeps_targets(world, so_far, root, below(root));
            lemma_with_unlocked_union(world, so_far, walk_targets(world, root, below(root)));
        }
    }
}

/// Walking one listing and then another is walking the two in a row.
pub proof fn lemma_walk_concat(run: Run, first: Seq<ListedView>, second: Seq<ListedView>)
    ensures
        run.walk(first + second) == run.walk(first).walk(second),
    decreases second.len(),
{
    if second.len() == 0 {
        assert(first + second =~= first);
    } else {
        lemma_walk_concat(run, first, second.drop_last());
        assert((first + second).drop_last() =~= first + second.drop_last());
        assert((first + second).last() == second.last());
    }
}

/// A listing of entries with a path each has as many visited paths as
/// items.
pub proof fn lemma_visited_paths_len(listing: Seq<ListedView>)
    requires
        lists_each_path_once(listing),
        forall|i: int| 0 <= i < listing.len() ==> (#[trigger] listing[i]) is Entry,
    ensures
        visited_paths(listing).finite(),
        visited_paths(listing).len() == listing.len(),
    decreases listing.len(),
{
    if listing.len() == 0 {
        assert(visited_paths(listing) =~= Set::empty());
    } else {
        let front = listing.drop_last();
        let path = listing.last()->entry.path;
        lemma_visited_paths_len(front);
        lemma_visited_paths_push(front, listing.last());
        assert(front.push(listing.last()) =~= listing);
        assert(visited_paths(front).union(set![path]) =~= visited_paths(front).insert(path));
        if visited_paths(front).contains(path) {
            let i = choose|i: int| 0 <= i < front.len() && #[trigger] front[i].visited() == Some(path);
            assert(listing[i] is Entry && listing[listing.len() - 1] is Entry);
        }
    }
}

/// Where every item of a listing is an unlockable entry with a path of its
/// own, a plain walk reports each of them as unlocked, in the order of the
/// listing, and reports nothing else.
pub proof fn lemma_walk_reports_each_unlock(run: Run, listing: Seq<ListedView>)
    requires
        lists_each_path_once(listing),
        forall|i: int|
            0 <= i < listing.len() ==> (#[trigger] listing[i]) is Entry && run.world.unlockable(
                listing[i]->entry.path,
            ),
    ensures
        run.walk(listing).notices == run.notices + Seq::new(
            listing.len(),
            |i: int| NoticeView::Unlocked { path: listing[i]->entry.path },
        ),
    decreases listing.len(),
{
    let expected = run.notices + Seq::new(
        listing.len(),
        |i: int| NoticeView::Unlocked { path: listing[i]->entry.path },
    );
    if listing.len() == 0 {
        assert(run.notices =~= expected);
    } else {
        let front = listing.drop_last();
        let path = listing.last()->entry.path;
        let before = run.walk(front);
        lemma_walk_reports_each_unlock(run, front);
        lemma_walk_world(run, front);
        if visited_paths(front).contains(path) {
            let i = choose|i: int| 0 <= i < front.len() && #[trigger] front[i].visited() == Some(path);
            assert(listing[i] is Entry && listing[listing.len() - 1] is Entry);
        }
        assert(listing[listing.len() - 1] is Entry);
        assert(before.world.unlockable(path));
        lemma_unlock_path(before.world, path);
        assert(run.walk(listing).notices =~= expected);
    }
}

/// Unlocking a write-protected path that the system lets be read and
/// written reports success and leaves the path writable for every class;
/// unlocking it again reports success too and changes nothing.
pub proof fn unlocking_makes_writable_and_is_idempotent(world: World, path: Seq<char>)
    requires
        world.contains(path),
        world.nodes[path].permissions.write_protected(),
        !world.read_denied.contains(path),
        !world.write_denied.contains(path),
    ensures
        world.unlock_outcome(path) == OutcomeView::Unlocked,
        world.unlocked(path).writable(path),
        world.unlocked(path).nodes[path].permissions.every_class_may_write(),
        world.unlocked(path).nodes[path].permissions.same_apart_from_writing(
            world.nodes[path].permissions,
        ),
        world.unlocked(path).unlock_outcome(path) == OutcomeView::AlreadyWritable,
        world.unlocked(path).unlocked(path) == world.unlocked(path),
{
    lemma_cleared(world.nodes[path].permissions);
    lemma_unlock_path(world, path);
    lemma_unlock_path(world.unlocked(path), path);
    lemma_with_unlocked_union(world, set![path], set![path]);
    assert(set![path].union(set![path]) =~= set![path]);
}

/// Unlocking a path twice is unlocking it once, whatever the path and the
/// world; and where the first time succeeded, the second finds the path
/// writable.
pub proof fn unlocking_twice_is_unlocking_once(world: World, path: Seq<char>)
    ensures
        world.unlocked(path).unlocked(path) == world.unlocked(path),
        world.unlock_outcome(path).is_success() ==> world.unlocked(path).unlock_outcome(path)
            == OutcomeView::AlreadyWritable,
{
    lemma_unlock_path(world, path);
    lemma_unlock_path(world.unlocked(path), path);
    lemma_with_unlocked_union(world, set![path], set![path]);
    assert(set![path].union(set![path]) =~= set![path]);
    if world.contains(path) {
        lemma_cleared(world.nodes[path].permissions);
    }
}

/// A walk of a root that does not exist, plain or filtered, reports that the
/// root was not found and does nothing else: the world is as before, and the
/// root still does not exist.
pub proof fn missing_root_is_left_alone(
    run: Run,
    root: Seq<char>,
    target: Seq<char>,
    listing: Seq<ListedView>,
    below: spec_fn(Seq<char>) -> Seq<ListedView>,
)
    requires
        !run.world.contains(root),
    ensures
        run.unlock_recursive(root, listing) == run.note(
            NoticeView::Failed { failure: FailureView::NotFound { path: root } },
        ),
        run.unlock_subdir_recursive(root, target, listing, below) == run.note(
            NoticeView::Failed { failure: FailureView::NotFound { path: root } },
        ),
        run.unlock_recursive(root, listing).world == run.world,
        run.unlock_subdir_recursive(root, target, listing, below).world == run.world,
        !run.unlock_recursive(root, listing).world.contains(root),
        !run.unlock_subdir_recursive(root, target, listing, below).world.contains(root),
{
}

/// A plain walk, whatever the root and the listing, changes nothing but
/// write protection, and that only towards writable: it creates and removes
/// no path, turns no directory into a file, leaves what every path holds,
/// and leaves every writable path exactly as it was.
pub proof fn walk_changes_write_protection_only(run: Run, root: Seq<char>, listing: Seq<ListedView>)
    ensures
        ({
            let end = run.unlock_recursive(root, listing);
            &&& end.world.nodes.dom() == run.world.nodes.dom()
            &&& forall|p: Seq<char>| #[trigger]
                run.world.contains(p) ==> {
                    &&& end.world.nodes[p].is_dir == run.world.nodes[p].is_dir
                    &&& end.world.nodes[p].contents == run.world.nodes[p].contents
                    &&& end.world.nodes[p].permissions.same_apart_from_writing(
                        run.world.nodes[p].permissions,
                    )
                    &&& run.world.writable(p) ==> end.world.nodes[p] == run.world.nodes[p]
                }
        }),
{
    lemma_unlock_recursive_world(run, root, listing);
    lemma_with_unlocked_changes_write_protection_only(
        run.world,
        walk_targets(run.world, root, listing),
    );
}

/// A plain walk that is run again on what the first left, with the same
/// enumeration, changes nothing.
pub proof fn walking_again_changes_nothing(run: Run, root: Seq<char>, listing: Seq<ListedView>)
    ensures
        run.unlock_recursive(root, listing).unlock_recursive(root, listing).world
            == run.unlock_recursive(root, listing).world,
{
    let once = run.unlock_recursive(root, listing);
    let targets = walk_targets(run.world, root, listing);
    lemma_unlock_recursive_world(run, root, listing);
    lemma_unlock_recursive_world(once, root, listing);
    lemma_with_unlocked_keeps_targets(run.world, targets, root, listing);
    lemma_with_unlocked_union(run.world, targets, targets);
    assert(targets.union(targets) =~= targets);
}

/// The plain walk of a directory whose tree holds `files` files and
/// `subdirs` directories below the root, each listed once and each
/// write-protected and open to being read and written, reports the root as
/// processed and then every entry as unlocked, leaves every entry writable,
/// which makes `files + subdirs + 1` writable entries, and leaves every
/// other path as it was.
pub proof fn walk_unlocks_whole_tree(
    run: Run,
    root: Seq<char>,
    listing: Seq<ListedView>,
    files: nat,
    subdirs: nat,
)
    requires
        run.world.root_kind(root) == RootKind::Directory,
        listing.len() == files + subdirs + 1,
        lists_each_path_once(listing),
        forall|i: int|
            0 <= i < listing.len() ==> (#[trigger] listing[i]) is Entry && run.world.unlockable(
                listing[i]->entry.path,
            ),
    ensures
        ({
            let end = run.unlock_recursive(root, listing);
            let made_writable = Set::new(
                |p: Seq<char>| visited_paths(listing).contains(p) && end.world.writable(p),
            );
            &&& forall|i: int|
                0 <= i < listing.len() ==> end.world.writable((#[trigger] listing[i])->entry.path)
            &&& made_writable.finite()
            &&& made_writable.len() == files + subdirs + 1
            &&& forall|p: Seq<char>|
                run.world.contains(p) && !visited_paths(listing).contains(p) ==> #[trigger] end.world.nodes[p]
                    == run.world.nodes[p]
            &&& end.world.nodes.dom() == run.world.nodes.dom()
            &&& end.notices == run.notices.push(NoticeView::Processing { path: root }) + Seq::new(
                listing.len(),
                |i: int| NoticeView::Unlocked { path: listing[i]->entry.path },
            )
        }),
{
    let end = run.unlock_recursive(root, listing);
    let opened = run.note(NoticeView::Processing { path: root });
    let made_writable = Set::new(
        |p: Seq<char>| visited_paths(listing).contains(p) && end.world.writable(p),
    );
    lemma_unlock_recursive_world(run, root, listing);
    walk_changes_write_protection_only(run, root, listing);
    lemma_visited_paths_len(listing);
    lemma_walk_reports_each_unlock(opened, listing);
    assert forall|p: Seq<char>| visited_paths(listing).contains(p) implies end.world.writable(p) by {
        let i = choose|i: int| 0 <= i < listing.len() && #[trigger] listing[i].visited() == Some(p);
        assert(listing[i] is Entry);
        lemma_cleared(run.world.nodes[p].permissions);
    }
    assert forall|i: int| 0 <= i < listing.len() implies end.world.writable(
        (#[trigger] listing[i])->entry.path,
    ) by {
        assert(listing[i].visited() == Some(listing[i]->entry.path));
    }
    assert(made_writable =~= visited_paths(listing));
}

/// The world after a plain walk depends on which entries were visited, not
/// on their order, nor on how often each came up.
pub proof fn walk_order_is_immaterial(run: Run, one: Seq<ListedView>, other: Seq<ListedView>)
    requires
        visited_paths(one) == visited_paths(other),
    ensures
        run.walk(one).world == run.walk(other).world,
{
    lemma_walk_world(run, one);
    lemma_walk_world(run, other);
}

/// How many unlock roots a listing holds, where it lists each path once:
/// as many as there are distinct paths of unlock roots.
pub proof fn lemma_unlock_roots_are_distinct(listing: Seq<ListedView>, target: Seq<char>)
    requires
        lists_each_path_once(listing),
    ensures
        unlock_root_paths(listing, target).finite(),
        unlock_root_paths(listing, target).len() == unlock_roots(listing, target),
    decreases listing.len(),
{
    if listing.len() == 0 {
        assert(unlock_root_paths(listing, target) =~= Set::empty());
    } else {
        let front = listing.drop_last();
        let item = listing.last();
        lemma_unlock_roots_are_distinct(front, target);
        let so_far = unlock_root_paths(front, target);
        let expected = if item.is_unlock_root(target) {
            so_far.insert(item->entry.path)
        } else {
            so_far
        };
        assert forall|p: Seq<char>| unlock_root_paths(listing, target).contains(p) implies expected.contains(
            p,
        ) by {
            let i = choose|i: int|
                0 <= i < listing.len() && (#[trigger] listing[i]).is_unlock_root(target)
                    && listing[i]->entry.path == p;
            if i < front.len() {
                assert(front[i] == listing[i]);
            }
        }
        assert forall|p: Seq<char>| expected.contains(p) implies unlock_root_paths(
            listing,
            target,
        ).contains(p) by {
            if so_far.contains(p) {
                let i = choose|i: int|
                    0 <= i < front.len() && (#[trigger] front[i]).is_unlock_root(target)
                        && front[i]->entry.path == p;
                assert(listing[i] == front[i]);
            } else {
                assert(listing[listing.len() - 1] == item);
            }
        }
        assert(unlock_root_paths(listing, target) =~= expected);
        if item.is_unlock_root(target) && so_far.contains(item->entry.path) {
            let i = choose|i: int|
                0 <= i < front.len() && (#[trigger] front[i]).is_unlock_root(target)
                    && front[i]->entry.path == item->entry.path;
            assert(listing[i] is Entry && listing[listing.len() - 1] is Entry);
        }
    }
}

/// A filtered walk from an existing start unlocks what the plain walks of
/// its unlock roots unlock, and nothing else: every path among their targets
/// that could be unlocked is writable afterwards, every path outside them is
/// as it was, no path is created or removed, and what a path holds stays.
/// It ends by reporting how many unlock roots the listing held, or that it
/// held none; where the listing names each path once, that is the number of
/// distinct directories of the wanted name.
pub proof fn search_unlocks_below_unlock_roots_only(
    run: Run,
    start: Seq<char>,
    target: Seq<char>,
    listing: Seq<ListedView>,
    below: spec_fn(Seq<char>) -> Seq<ListedView>,
)
    requires
        run.world.contains(start),
    ensures
        ({
            let end = run.unlock_subdir_recursive(start, target, listing, below);
            let targets = search_targets(run.world, listing, target, below);
            let roots = unlock_roots(listing, target);
            &&& end.world == run.world.with_unlocked(targets)
            &&& end.world.nodes.dom() == run.world.nodes.dom()
            &&& forall|p: Seq<char>|
                #[trigger] targets.contains(p) && (run.world.unlockable(p) || run.world.writable(p))
                    ==> end.world.writable(p)
            &&& forall|p: Seq<char>|
                run.world.contains(p) && !(#[trigger] targets.contains(p)) ==> end.world.nodes[p]
                    == run.world.nodes[p]
            &&& forall|p: Seq<char>| #[trigger]
                run.world.contains(p) ==> end.world.nodes[p].is_dir == run.world.nodes[p].is_dir
                    && end.world.nodes[p].contents == run.world.nodes[p].contents
            &&& end.notices.last() == if roots == 0 {
                NoticeView::NoMatch { target, start }
            } else {
                NoticeView::Processed { count: roots, target }
            }
            &&& lists_each_path_once(listing) ==> unlock_root_paths(listing, target).finite()
                && unlock_root_paths(listing, target).len() == roots
        }),
{
    let end = run.unlock_subdir_recursive(start, target, listing, below);
    let targets = search_targets(run.world, listing, target, below);
    let kind = run.world.root_kind(start);
    let opened = run.note(search_notice(start, kind, target));
    let begun = SearchRun { run: opened, search: SubdirSearchView::begin(start, target) };
    lemma_search_walk(begun, listing, below);
    lemma_with_unlocked_changes_write_protection_only(run.world, targets);
    assert forall|p: Seq<char>|
        #[trigger] targets.contains(p) && (run.world.unlockable(p) || run.world.writable(
            p,
        )) implies end.world.writable(p) by {
        lemma_cleared(run.world.nodes[p].permissions);
    }
    if lists_each_path_once(listing) {
        lemma_unlock_roots_are_distinct(listing, target);
    }
}

/// Nothing that a plain walk meets at one item keeps it from the items that
/// follow. An item that could not be read is passed without a word. An
/// entry on which unlocking fails is left as it was and reported as an
/// error, with the failure being about that entry and about its metadata or
/// the write of its permission state.
pub proof fn failure_does_not_end_walk(
    run: Run,
    before: Seq<ListedView>,
    item: ListedView,
    after: Seq<ListedView>,
)
    ensures
        run.walk(before.push(item) + after) == run.walk(before).visit(item).walk(after),
        item is Unreadable ==> run.walk(before).visit(item) == run.walk(before),
        match item {
            ListedView::Entry { entry } => match run.walk(before).world.unlock_outcome(entry.path) {
                OutcomeView::Failed { failure } => {
                    &&& run.walk(before).visit(item) == run.walk(before).note(
                        NoticeView::Failed { failure },
                    )
                    &&& (NoticeView::Failed { failure }).severity() == Severity::Error
                    &&& failure.path() == entry.path
                    &&& failure is Metadata || failure is PermissionWrite
                },
                _ => true,
            },
            ListedView::Unreadable => true,
        },
{
    let reached = run.walk(before);
    lemma_walk_concat(run, before.push(item), after);
    assert(before.push(item).drop_last() =~= before);
    match item {
        ListedView::Entry { entry } => {
            lemma_unlock_path(reached.world, entry.path);
            if reached.world.unlock_outcome(entry.path) is Failed {
                assert(reached.world.unlocked(entry.path).nodes =~= reached.world.nodes);
            }
        },
        ListedView::Unreadable => {},
    }
}

/// An entry that vanished after it was listed does not end a plain walk:
/// the walk reports a metadata failure for it and goes on with the entries
/// that follow as if nothing had happened, and ends in the world in which
/// it would have ended without that entry.
pub proof fn vanished_entry_does_not_end_walk(
    run: Run,
    before: Seq<ListedView>,
    vanished: EntryView,
    after: Seq<ListedView>,
)
    requires
        !run.world.contains(vanished.path),
    ensures
        run.walk(before.push(ListedView::Entry { entry: vanished }) + after) == run.walk(before).note(
            NoticeView::Failed {
                failure: FailureView::Metadata {
                    path: vanished.path,
                    cause: (run.world.refusal)(vanished.path),
                },
            },
        ).walk(after),
        run.walk(before.push(ListedView::Entry { entry: vanished }) + after).world == run.walk(
            before + after,
        ).world,
{
    let item = ListedView::Entry { entry: vanished };
    let reached = run.walk(before);
    lemma_walk_concat(run, before.push(item), after);
    lemma_walk_concat(run, before, after);
    lemma_walk_world(run, before);
    assert(before.push(item).drop_last() =~= before);
    lemma_unlock_path(reached.world, vanished.path);
    assert(reached.world.unlocked(vanished.path).nodes =~= reached.world.nodes);
    let noted = run.walk(before.push(item));
    lemma_walk_world(noted, after);
    lemma_walk_world(reached, after);
}

} // verus!
