//! Verified core of a recursive write-protection remover.
//!
//! The crate decides; its caller acts. Every function here is a pure step
//! from what the caller observed on the file system (a probe of one path,
//! one item of a directory enumeration, the result of a permission write) to
//! what the caller has to do next and what it has to report. The functions
//! never touch the file system themselves.
//!
//! * [`permissions`] models the write-protection state of one path.
//! * [`report`] holds the failure taxonomy and the notices handed to a sink.
//! * [`path_unlocker`] is the protocol that unlocks one path.
//! * [`tree_walker`] is the protocol that walks a root, plain or filtered by
//!   a directory name.
//! * [`world`] is a mathematical model of a file system and of a caller that
//!   follows the protocols on it.
//! * [`laws`] states and proves what such a caller achieves.

pub mod laws;
pub mod path_unlocker;
pub mod permissions;
pub mod report;
pub mod tree_walker;
pub mod world;
