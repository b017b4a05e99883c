//! The write-protection state of one path.

use vstd::prelude::*;

verus! {

/// Write bit of the owning user.
pub const OWNER_WRITE: u32 = 0o200;

/// Write bit of the owning group.
pub const GROUP_WRITE: u32 = 0o020;

/// Write bit of everybody else.
pub const OTHER_WRITE: u32 = 0o002;

/// The three write bits together.
pub const WRITE_BITS: u32 = 0o222;

/// Permission state of a path, as read from and written back to the system.
#[derive(Clone, Copy, Debug, PartialEq, Eq, Structural)]
pub enum Permissions {
    /// A platform that keeps a single read-only toggle per path.
    Toggle { read_only: bool },
    /// A platform that keeps mode bits per class (owner, group, other).
    ClassBits { mode: u32 },
}

impl Permissions {
    /// Whether the path counts as write-protected: the toggle is set, or no
    /// class at all holds a write bit.
    pub open spec fn write_protected(self) -> bool {
        match self {
            Permissions::Toggle { read_only } => read_only,
            Permissions::ClassBits { mode } => mode & WRITE_BITS == 0,
        }
    }

    /// The state after write protection was cleared: the toggle is off, or
    /// all three write bits are set and every other bit is as before.
    pub open spec fn cleared(self) -> Permissions {
        match self {
            Permissions::Toggle { read_only } => Permissions::Toggle { read_only: false },
            Permissions::ClassBits { mode } => Permissions::ClassBits { mode: mode | WRITE_BITS },
        }
    }

    /// Whether every class may write. On a toggle platform this is the same
    /// as not being write-protected.
    pub open spec fn every_class_may_write(self) -> bool {
        match self {
            Permissions::Toggle { read_only } => !read_only,
            Permissions::ClassBits { mode } => {
                &&& mode & OWNER_WRITE == OWNER_WRITE
                &&& mode & GROUP_WRITE == GROUP_WRITE
                &&& mode & OTHER_WRITE == OTHER_WRITE
            },
        }
    }

    /// Whether `self` and `other` are of the same platform and agree on
    /// everything but write protection.
    pub open spec fn same_apart_from_writing(self, other: Permissions) -> bool {
        match (self, other) {
            (Permissions::Toggle { .. }, Permissions::Toggle { .. }) => true,
            (Permissions::ClassBits { mode: a }, Permissions::ClassBits { mode: b }) => a & !WRITE_BITS
                == b & !WRITE_BITS,
            _ => false,
        }
    }

    /// Reads the write-protection flag.
    pub fn is_write_protected(&self) -> (protected: bool)
        ensures
            protected == self.write_protected(),
    {
        match *self {
            Permissions::Toggle { read_only } => read_only,
            Permissions::ClassBits { mode } => mode & WRITE_BITS == 0,
        }
    }

    /// Clears write protection. The result is writable for every class,
    /// keeps all other bits, and clearing it once more changes nothing.
    pub fn clear_write_protection(&self) -> (unlocked: Permissions)
        ensures
            unlocked == self.cleared(),
            !unlocked.write_protected(),
            unlocked.every_class_may_write(),
            unlocked.same_apart_from_writing(*self),
            unlocked.cleared() == unlocked,
            !self.write_protected() && self.every_class_may_write() ==> unlocked == *self,
    {
        proof {
            lemma_cleared(*self);
        }
        match *self {
            Permissions::Toggle { read_only } => Permissions::Toggle { read_only: false },
            Permissions::ClassBits { mode } => Permissions::ClassBits { mode: mode | WRITE_BITS },
        }
    }
}

/// What clearing achieves, for every permission state.
pub proof fn lemma_cleared(p: Permissions)
    ensures
        !p.cleared().write_protected(),
        p.cleared().every_class_may_write(),
        p.cleared().same_apart_from_writing(p),
        p.cleared().cleared() == p.cleared(),
        p.every_class_may_write() ==> p.cleared() == p,
        p.every_class_may_write() ==> !p.write_protected(),
{
    match p {
        Permissions::Toggle { read_only } => {},
        Permissions::ClassBits { mode } => {
            let w: u32 = WRITE_BITS;
            let o: u32 = OWNER_WRITE;
            let g: u32 = GROUP_WRITE;
            let e: u32 = OTHER_WRITE;
            assert((mode | w) & w != 0 && (mode | w) & o == o && (mode | w) & g == g && (mode | w)
                & e == e && (mode | w) & !w == mode & !w && (mode | w) | w == mode | w) by (bit_vector)
                requires
                    w == 0o222u32,
                    o == 0o200u32,
                    g == 0o020u32,
                    e == 0o002u32,
            ;
            assert((mode & o == o && mode & g == g && mode & e == e) ==> (mode | w == mode && mode
                & w != 0)) by (bit_vector)
                requires
                    w == 0o222u32,
                    o == 0o200u32,
                    g == 0o020u32,
                    e == 0o002u32,
            ;
        },
    }
}

/// Clearing is the only way to get there: a state in which every class may
/// write and which is otherwise as `p` is the cleared state of `p`.
pub proof fn clearing_is_determined(p: Permissions, q: Permissions)
    requires
        q.every_class_may_write(),
        q.same_apart_from_writing(p),
    ensures
        q == p.cleared(),
{
    match (p, q) {
        (Permissions::ClassBits { mode: a }, Permissions::ClassBits { mode: b }) => {
            let w: u32 = WRITE_BITS;
            let o: u32 = OWNER_WRITE;
            let g: u32 = GROUP_WRITE;
            let e: u32 = OTHER_WRITE;
            assert((b & o == o && b & g == g && b & e == e && b & !w == a & !w) ==> b == a | w)
                by (bit_vector)
                requires
                    w == 0o222u32,
                    o == 0o200u32,
                    g == 0o020u32,
                    e == 0o002u32,
            ;
        },
        _ => {},
    }
}

} // verus!
