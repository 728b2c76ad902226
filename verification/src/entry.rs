//! Filesystem entries as observed by one scan.

use vstd::prelude::*;

verus! {

/// Whether an entry is a regular file or a directory.
#[derive(Clone, Copy, Debug, PartialEq, Eq, Structural)]
pub enum EntryKind {
    File,
    Directory,
}

/// One filesystem node observed during a walk.
///
/// `last_used` is in whole seconds since the Unix epoch; zero stands for
/// "unknown", which every cutoff treats as very old.
#[derive(Debug, PartialEq, Eq)]
pub struct Entry {
    pub path: String,
    pub size: u64,
    pub kind: EntryKind,
    pub last_used: u64,
}

impl Clone for Entry {
    fn clone(&self) -> (copy: Self)
        ensures
            copy == *self,
    {
        Entry {
            path: self.path.clone(),
            size: self.size,
            kind: self.kind,
            last_used: self.last_used,
        }
    }
}

impl Entry {
    /// Builds an entry from its four observed attributes.
    pub fn new(path: String, size: u64, kind: EntryKind, last_used: u64) -> (entry: Entry)
        ensures
            entry.path == path,
            entry.size == size,
            entry.kind == kind,
            entry.last_used == last_used,
    {
        Entry { path, size, kind, last_used }
    }

    /// True for a regular file, false for a directory.
    pub fn is_file(&self) -> (file: bool)
        ensures
            file == (self.kind == EntryKind::File),
    {
        match self.kind {
            EntryKind::File => true,
            EntryKind::Directory => false,
        }
    }
}

/// The best available "last used" time of a node: its access time where the
/// platform supplies one, else its modification time, else the epoch.
pub open spec fn best_last_used(accessed: Option<u64>, modified: Option<u64>) -> u64 {
    match accessed {
        Some(t) => t,
        None => match modified {
            Some(t) => t,
            None => 0,
        },
    }
}

/// Picks the timestamp an entry is judged by, preferring access time over
/// modification time and falling back to the epoch when neither is known.
pub fn last_used_time(accessed: Option<u64>, modified: Option<u64>) -> (time: u64)
    ensures
        time == best_last_used(accessed, modified),
{
    match accessed {
        Some(t) => t,
        None => match modified {
            Some(t) => t,
            None => 0,
        },
    }
}

} // verus!
