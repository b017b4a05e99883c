//! Walks over a small file system held in memory, driven the way a caller on
//! a real one drives them.

use unlocker::path_unlocker::{persisted, unlock_path, Outcome, Probe, UnlockStep};
use unlocker::permissions::Permissions;
use unlocker::report::{Failure, Notice, Severity};
use unlocker::tree_walker::{
    unlock_recursive, unlock_subdir_recursive, visit, Entry, Listed, RootKind, RootPlan,
};

const READ_ONLY: Permissions = Permissions::ClassBits { mode: 0o444 };
const UNLOCKED: Permissions = Permissions::ClassBits { mode: 0o666 };
const READ_ONLY_DIR: Permissions = Permissions::ClassBits { mode: 0o555 };
const UNLOCKED_DIR: Permissions = Permissions::ClassBits { mode: 0o777 };

struct Node {
    path: String,
    is_dir: bool,
    permissions: Permissions,
    /// Listed by an enumeration, but gone when its permission state is read.
    vanishes: bool,
    /// Refuses to have its permission state written.
    sealed: bool,
    /// Cannot be read by an enumeration.
    unlistable: bool,
}

struct Disk {
    nodes: Vec<Node>,
    writes: usize,
}

impl Disk {
    fn new() -> Disk {
        Disk { nodes: Vec::new(), writes: 0 }
    }

    fn add(&mut self, path: &str, is_dir: bool, permissions: Permissions) -> &mut Node {
        self.nodes.push(Node {
            path: path.to_string(),
            is_dir,
            permissions,
            vanishes: false,
            sealed: false,
            unlistable: false,
        });
        self.nodes.last_mut().unwrap()
    }

    fn dir(&mut self, path: &str) -> &mut Node {
        self.add(path, true, READ_ONLY_DIR)
    }

    fn file(&mut self, path: &str) -> &mut Node {
        self.add(path, false, READ_ONLY)
    }

    fn find(&self, path: &str) -> Option<&Node> {
        self.nodes.iter().find(|n| n.path == path)
    }

    fn permissions(&self, path: &str) -> Permissions {
        self.find(path).expect("the path exists").permissions
    }

    fn is_writable(&self, path: &str) -> bool {
        !self.permissions(path).is_write_protected()
    }

    fn writable_count(&self) -> usize {
        self.nodes.iter().filter(|n| !n.permissions.is_write_protected()).count()
    }

    fn root_kind(&self, path: &str) -> RootKind {
        match self.find(path) {
            None => RootKind::classify(false, false),
            Some(node) => RootKind::classify(true, node.is_dir),
        }
    }

    fn probe(&self, path: &str) -> Probe {
        match self.find(path) {
            Some(node) if !node.vanishes => Probe::Found { permissions: node.permissions },
            _ => Probe::Failed { cause: "not found".to_string() },
        }
    }

    fn write(&mut self, path: &str, permissions: Permissions) -> Result<(), String> {
        match self.nodes.iter_mut().find(|n| n.path == path) {
            Some(node) if !node.sealed && !node.vanishes => {
                node.permissions = permissions;
                self.writes += 1;
                Ok(())
            }
            Some(_) => Err("in use".to_string()),
            None => Err("not found".to_string()),
        }
    }

    /// The root and all that is below it, in the order in which it was added.
    fn enumerate(&self, root: &str) -> Vec<Listed> {
        let below = format!("{}/", root);
        self.nodes
            .iter()
            .filter(|n| n.path == root || n.path.starts_with(&below))
            .map(|n| {
                if n.unlistable {
                    Listed::Unreadable
                } else {
                    Listed::Entry {
                        entry: Entry {
                            path: n.path.clone(),
                            name: n.path.rsplit('/').next().map(|s| s.to_string()),
                            is_dir: n.is_dir,
                        },
                    }
                }
            })
            .collect()
    }
}

fn run_unlock_path(disk: &mut Disk, path: &str) -> Outcome {
    match unlock_path(path, disk.probe(path)) {
        UnlockStep::Finished { outcome } => outcome,
        UnlockStep::Persist { path: target, permissions } => {
            persisted(path, disk.write(&target, permissions))
        }
    }
}

fn run_and_report(disk: &mut Disk, path: &str, sink: &mut Vec<Notice>) {
    if let Some(notice) = run_unlock_path(disk, path).notice(path) {
        sink.push(notice);
    }
}

fn run_listing(disk: &mut Disk, listing: &[Listed], sink: &mut Vec<Notice>) {
    for item in listing {
        if let Some(path) = visit(item) {
            run_and_report(disk, path, sink);
        }
    }
}

fn run_unlock_recursive(disk: &mut Disk, root: &str, sink: &mut Vec<Notice>) {
    let start = unlock_recursive(root, disk.root_kind(root));
    sink.push(start.notice);
    match start.plan {
        RootPlan::Skip => {}
        RootPlan::Single => run_and_report(disk, root, sink),
        RootPlan::Tree => {
            let listing = disk.enumerate(root);
            run_listing(disk, &listing, sink);
        }
    }
}

fn run_unlock_subdir_recursive(disk: &mut Disk, start: &str, target: &str, sink: &mut Vec<Notice>) {
    let begin = unlock_subdir_recursive(start, disk.root_kind(start), target);
    sink.push(begin.notice);
    let mut search = match begin.search {
        Some(search) => search,
        None => return,
    };
    for item in disk.enumerate(start) {
        if let Some(found) = search.visit(&item) {
            sink.push(found);
            let root = visit(&item).expect("an unlock root is an entry").to_string();
            run_unlock_recursive(disk, &root, sink);
        }
    }
    sink.push(search.finish());
}

fn unlocked(path: &str) -> Notice {
    Notice::Unlocked { path: path.to_string() }
}

fn processing(path: &str) -> Notice {
    Notice::Processing { path: path.to_string() }
}

fn project() -> Disk {
    let mut disk = Disk::new();
    disk.dir("/proj");
    disk.file("/proj/a.txt");
    disk.dir("/proj/sub");
    disk.file("/proj/sub/b.txt");
    disk
}

#[test]
fn unlocking_a_project_makes_both_files_writable() {
    let mut disk = project();
    let mut sink = Vec::new();
    run_unlock_recursive(&mut disk, "/proj", &mut sink);
    assert!(disk.is_writable("/proj/a.txt"));
    assert!(disk.is_writable("/proj/sub/b.txt"));
    assert_eq!(disk.permissions("/proj/a.txt"), UNLOCKED);
    assert_eq!(disk.permissions("/proj/sub/b.txt"), UNLOCKED);
    assert_eq!(disk.permissions("/proj"), UNLOCKED_DIR);
    assert_eq!(disk.permissions("/proj/sub"), UNLOCKED_DIR);
    assert_eq!(
        sink,
        vec![
            processing("/proj"),
            unlocked("/proj"),
            unlocked("/proj/a.txt"),
            unlocked("/proj/sub"),
            unlocked("/proj/sub/b.txt"),
        ]
    );
}

#[test]
fn unlocking_a_project_again_changes_nothing() {
    let mut disk = project();
    let mut sink = Vec::new();
    run_unlock_recursive(&mut disk, "/proj", &mut sink);
    let writes = disk.writes;
    let state: Vec<Permissions> = disk.nodes.iter().map(|n| n.permissions).collect();

    let mut again = Vec::new();
    run_unlock_recursive(&mut disk, "/proj", &mut again);
    assert_eq!(disk.writes, writes);
    assert_eq!(disk.nodes.iter().map(|n| n.permissions).collect::<Vec<_>>(), state);
    assert!(disk.is_writable("/proj/a.txt"));
    assert!(disk.is_writable("/proj/sub/b.txt"));
    assert_eq!(again, vec![processing("/proj")]);
}

#[test]
fn filtered_walk_unlocks_below_the_wanted_directory_only() {
    let mut disk = Disk::new();
    disk.dir("/proj");
    disk.dir("/proj/PluginA");
    disk.dir("/proj/PluginA/Intermediate");
    disk.file("/proj/PluginA/Intermediate/x.bin");
    disk.dir("/proj/PluginB");
    disk.dir("/proj/PluginB/NoMatch");
    disk.file("/proj/PluginB/NoMatch/y.bin");

    let mut sink = Vec::new();
    run_unlock_subdir_recursive(&mut disk, "/proj", "Intermediate", &mut sink);

    assert!(disk.is_writable("/proj/PluginA/Intermediate/x.bin"));
    assert!(!disk.is_writable("/proj/PluginB/NoMatch/y.bin"));
    assert_eq!(disk.permissions("/proj/PluginB/NoMatch/y.bin"), READ_ONLY);
    assert_eq!(
        sink.last(),
        Some(&Notice::Processed { count: 1, target: "Intermediate".to_string() })
    );
    assert_eq!(
        sink,
        vec![
            Notice::Searching { target: "Intermediate".to_string(), start: "/proj".to_string() },
            Notice::Found { path: "/proj/PluginA/Intermediate".to_string() },
            processing("/proj/PluginA/Intermediate"),
            unlocked("/proj/PluginA/Intermediate"),
            unlocked("/proj/PluginA/Intermediate/x.bin"),
            Notice::Processed { count: 1, target: "Intermediate".to_string() },
        ]
    );
}

#[test]
fn filtered_walk_leaves_directories_on_the_way_locked() {
    let mut disk = Disk::new();
    disk.dir("/proj");
    disk.dir("/proj/PluginA");
    disk.dir("/proj/PluginA/Intermediate");
    disk.file("/proj/PluginA/Intermediate/x.bin");

    let mut sink = Vec::new();
    run_unlock_subdir_recursive(&mut disk, "/proj", "Intermediate", &mut sink);
    assert!(!disk.is_writable("/proj"));
    assert!(!disk.is_writable("/proj/PluginA"));
    assert!(disk.is_writable("/proj/PluginA/Intermediate"));
    assert_eq!(disk.writes, 2);
}

#[test]
fn filtered_walk_finds_the_name_at_every_depth() {
    let mut disk = Disk::new();
    disk.dir("/proj");
    disk.dir("/proj/Intermediate");
    disk.file("/proj/Intermediate/top.bin");
    disk.dir("/proj/A");
    disk.file("/proj/A/outside.bin");
    disk.dir("/proj/A/B");
    disk.dir("/proj/A/B/Intermediate");
    disk.file("/proj/A/B/Intermediate/deep.bin");
    disk.dir("/proj/A/B/Intermediate/C");
    disk.dir("/proj/A/B/Intermediate/C/Intermediate");
    disk.file("/proj/A/B/Intermediate/C/Intermediate/deeper.bin");
    disk.file("/proj/A/Intermediate");
    disk.dir("/proj/intermediate");
    disk.file("/proj/intermediate/case.bin");

    let mut sink = Vec::new();
    run_unlock_subdir_recursive(&mut disk, "/proj", "Intermediate", &mut sink);

    for path in [
        "/proj/Intermediate",
        "/proj/Intermediate/top.bin",
        "/proj/A/B/Intermediate",
        "/proj/A/B/Intermediate/deep.bin",
        "/proj/A/B/Intermediate/C",
        "/proj/A/B/Intermediate/C/Intermediate",
        "/proj/A/B/Intermediate/C/Intermediate/deeper.bin",
    ] {
        assert!(disk.is_writable(path), "{} should be writable", path);
    }
    for path in [
        "/proj",
        "/proj/A",
        "/proj/A/outside.bin",
        "/proj/A/B",
        "/proj/A/Intermediate",
        "/proj/intermediate",
        "/proj/intermediate/case.bin",
    ] {
        assert!(!disk.is_writable(path), "{} should be untouched", path);
    }
    assert_eq!(
        sink.last(),
        Some(&Notice::Processed { count: 3, target: "Intermediate".to_string() })
    );
    let found = sink.iter().filter(|n| matches!(n, Notice::Found { .. })).count();
    assert_eq!(found, 3);
}

#[test]
fn filtered_walk_without_a_match_warns_and_writes_nothing() {
    let mut disk = project();
    let mut sink = Vec::new();
    run_unlock_subdir_recursive(&mut disk, "/proj", "Intermediate", &mut sink);
    assert_eq!(disk.writes, 0);
    assert_eq!(disk.writable_count(), 0);
    assert_eq!(
        sink,
        vec![
            Notice::Searching { target: "Intermediate".to_string(), start: "/proj".to_string() },
            Notice::NoMatch { target: "Intermediate".to_string(), start: "/proj".to_string() },
        ]
    );
    assert_eq!(sink[1].severity(), Severity::Warn);
}

#[test]
fn walk_of_a_missing_root_creates_nothing() {
    let mut disk = project();
    let mut sink = Vec::new();
    run_unlock_recursive(&mut disk, "/elsewhere", &mut sink);
    run_unlock_subdir_recursive(&mut disk, "/elsewhere", "Intermediate", &mut sink);
    assert!(disk.find("/elsewhere").is_none());
    assert_eq!(disk.nodes.len(), 4);
    assert_eq!(disk.writes, 0);
    assert_eq!(disk.writable_count(), 0);
    let not_found = Notice::Failed { failure: Failure::NotFound { path: "/elsewhere".to_string() } };
    assert_eq!(sink, vec![not_found.clone(), not_found]);
    assert_eq!(sink[0].severity(), Severity::Error);
}

#[test]
fn walk_of_a_single_file_unlocks_that_file() {
    let mut disk = project();
    let mut sink = Vec::new();
    run_unlock_recursive(&mut disk, "/proj/a.txt", &mut sink);
    assert!(disk.is_writable("/proj/a.txt"));
    assert_eq!(disk.writable_count(), 1);
    assert_eq!(sink, vec![processing("/proj/a.txt"), unlocked("/proj/a.txt")]);
}

#[test]
fn walk_makes_every_entry_of_the_tree_writable() {
    let files = 5;
    let subdirs = 3;
    let mut disk = Disk::new();
    disk.dir("/t");
    disk.dir("/t/d1");
    disk.dir("/t/d1/d2");
    disk.dir("/t/d3");
    disk.file("/t/f1");
    disk.file("/t/d1/f2");
    disk.file("/t/d1/d2/f3");
    disk.file("/t/d1/d2/f4");
    disk.file("/t/d3/f5");
    disk.file("/outside");
    assert_eq!(disk.writable_count(), 0);

    let mut sink = Vec::new();
    run_unlock_recursive(&mut disk, "/t", &mut sink);
    assert_eq!(disk.writable_count(), files + subdirs + 1);
    assert_eq!(disk.writes, files + subdirs + 1);
    assert!(!disk.is_writable("/outside"));
    assert_eq!(sink.len(), files + subdirs + 2);
}

#[test]
fn walk_order_does_not_matter() {
    let mut forward = project();
    let mut backward = project();
    let listing = forward.enumerate("/proj");
    let mut reversed = backward.enumerate("/proj");
    reversed.reverse();

    let mut sink = Vec::new();
    run_listing(&mut forward, &listing, &mut sink);
    run_listing(&mut backward, &reversed, &mut sink);
    for node in &forward.nodes {
        assert_eq!(backward.permissions(&node.path), node.permissions);
    }
    assert_eq!(forward.writable_count(), 4);
    assert_eq!(backward.writable_count(), 4);
}

#[test]
fn vanished_entry_is_reported_and_the_rest_is_processed() {
    let mut disk = Disk::new();
    disk.dir("/proj");
    disk.file("/proj/a.txt");
    disk.file("/proj/gone.txt").vanishes = true;
    disk.file("/proj/z.txt");

    let mut sink = Vec::new();
    run_unlock_recursive(&mut disk, "/proj", &mut sink);
    assert!(disk.is_writable("/proj"));
    assert!(disk.is_writable("/proj/a.txt"));
    assert!(disk.is_writable("/proj/z.txt"));
    assert_eq!(
        sink,
        vec![
            processing("/proj"),
            unlocked("/proj"),
            unlocked("/proj/a.txt"),
            Notice::Failed {
                failure: Failure::Metadata {
                    path: "/proj/gone.txt".to_string(),
                    cause: "not found".to_string(),
                },
            },
            unlocked("/proj/z.txt"),
        ]
    );
}

#[test]
fn refused_write_is_reported_and_the_rest_is_processed() {
    let mut disk = Disk::new();
    disk.dir("/proj");
    disk.file("/proj/busy.txt").sealed = true;
    disk.file("/proj/z.txt");

    let mut sink = Vec::new();
    run_unlock_recursive(&mut disk, "/proj", &mut sink);
    assert!(!disk.is_writable("/proj/busy.txt"));
    assert!(disk.is_writable("/proj/z.txt"));
    assert_eq!(
        sink,
        vec![
            processing("/proj"),
            unlocked("/proj"),
            Notice::Failed {
                failure: Failure::PermissionWrite {
                    path: "/proj/busy.txt".to_string(),
                    cause: "in use".to_string(),
                },
            },
            unlocked("/proj/z.txt"),
        ]
    );
    assert_eq!(sink[2].severity(), Severity::Error);
}

#[test]
fn unreadable_item_is_passed_in_silence() {
    let mut disk = Disk::new();
    disk.dir("/proj");
    disk.file("/proj/a.txt").unlistable = true;
    disk.file("/proj/z.txt");

    let mut sink = Vec::new();
    run_unlock_recursive(&mut disk, "/proj", &mut sink);
    assert!(!disk.is_writable("/proj/a.txt"));
    assert!(disk.is_writable("/proj/z.txt"));
    assert_eq!(sink, vec![processing("/proj"), unlocked("/proj"), unlocked("/proj/z.txt")]);
}

#[test]
fn already_writable_entries_are_left_alone_in_silence() {
    let mut disk = Disk::new();
    disk.add("/proj", true, UNLOCKED_DIR);
    disk.add("/proj/partly.txt", false, Permissions::ClassBits { mode: 0o464 });
    disk.file("/proj/locked.txt");

    let mut sink = Vec::new();
    run_unlock_recursive(&mut disk, "/proj", &mut sink);
    assert_eq!(disk.permissions("/proj/partly.txt"), Permissions::ClassBits { mode: 0o464 });
    assert_eq!(disk.permissions("/proj/locked.txt"), UNLOCKED);
    assert_eq!(disk.writes, 1);
    assert_eq!(sink, vec![processing("/proj"), unlocked("/proj/locked.txt")]);
}

#[test]
fn roots_are_processed_in_the_order_given() {
    let mut disk = project();
    disk.file("/other.txt");
    let mut sink = Vec::new();
    for root in ["/proj/sub", "/missing", "/other.txt"] {
        run_unlock_recursive(&mut disk, root, &mut sink);
    }
    assert_eq!(
        sink,
        vec![
            processing("/proj/sub"),
            unlocked("/proj/sub"),
            unlocked("/proj/sub/b.txt"),
            Notice::Failed { failure: Failure::NotFound { path: "/missing".to_string() } },
            processing("/other.txt"),
            unlocked("/other.txt"),
        ]
    );
    assert!(!disk.is_writable("/proj/a.txt"));
}

#[test]
fn toggle_platform_is_unlocked_by_switching_the_toggle_off() {
    let mut disk = Disk::new();
    disk.add("C:/proj", true, Permissions::Toggle { read_only: false });
    disk.add("C:/proj/a.txt", false, Permissions::Toggle { read_only: true });
    let mut sink = Vec::new();
    run_unlock_recursive(&mut disk, "C:/proj", &mut sink);
    assert_eq!(disk.permissions("C:/proj/a.txt"), Permissions::Toggle { read_only: false });
    assert_eq!(sink, vec![processing("C:/proj"), unlocked("C:/proj/a.txt")]);
}
