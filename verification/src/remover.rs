//! Removal of a selection: how each entry is removed, and the bookkeeping of
//! a batch in which every entry gets exactly one attempt.

use vstd::prelude::*;
use crate::entry::{Entry, EntryKind};

verus! {

/// How an entry is removed.
#[derive(Clone, Copy, Debug, PartialEq, Eq, Structural)]
pub enum Removal {
    /// Unlink the file.
    Unlink,
    /// Remove the directory's contents, then the directory.
    RemoveTree,
}

/// The removal that fits a kind of entry.
pub open spec fn removal_of(kind: EntryKind) -> Removal {
    match kind {
        EntryKind::File => Removal::Unlink,
        EntryKind::Directory => Removal::RemoveTree,
    }
}

/// The number of items of `s` equal to `flag`.
pub open spec fn count_of(s: Seq<bool>, flag: bool) -> nat
    decreases s.len(),
{
    if s.len() == 0 {
        0
    } else {
        count_of(s.drop_last(), flag) + if s.last() == flag {
            1nat
        } else {
            0nat
        }
    }
}

/// Successes and failures add up to the number of attempts, and there is a
/// failure exactly when some attempt failed.
pub proof fn lemma_counts(s: Seq<bool>)
    ensures
        count_of(s, true) + count_of(s, false) == s.len(),
        count_of(s, false) > 0 <==> s.contains(false),
        count_of(s, true) > 0 <==> s.contains(true),
    decreases s.len(),
{
    if s.len() > 0 {
        let init = s.drop_last();
        lemma_counts(init);
        assert forall|flag: bool| count_of(s, flag) > 0 <==> s.contains(flag) by {
            if s.contains(flag) {
                let k = choose|k: int| 0 <= k < s.len() && s[k] == flag;
                if k < init.len() {
                    assert(init[k] == flag);
                }
            }
            if count_of(s, flag) > 0 {
                if s.last() == flag {
                    assert(s[s.len() - 1] == flag);
                } else {
                    assert(init.contains(flag));
                    let k = choose|k: int| 0 <= k < init.len() && init[k] == flag;
                    assert(s[k] == flag);
                }
            }
        }
    }
}

/// Picks the removal for an entry: a file is unlinked, a directory is removed
/// with everything beneath it.
pub fn removal_for(entry: &Entry) -> (how: Removal)
    ensures
        how == removal_of(entry.kind),
{
    match entry.kind {
        EntryKind::File => Removal::Unlink,
        EntryKind::Directory => Removal::RemoveTree,
    }
}

/// A batch of removals. `targets` are the indices to remove, in order;
/// `outcomes[i]` tells whether the removal of `targets[i]` succeeded.
#[derive(Debug)]
pub struct Batch {
    pub targets: Vec<usize>,
    pub outcomes: Vec<bool>,
}

impl Batch {
    /// No more outcomes are recorded than there are targets.
    pub open spec fn wf(&self) -> bool {
        self.outcomes@.len() <= self.targets@.len()
    }

    /// Every target has had its attempt.
    pub open spec fn finished(&self) -> bool {
        self.outcomes@.len() >= self.targets@.len()
    }

    /// A batch over `targets` with no attempt made yet.
    pub fn new(targets: Vec<usize>) -> (batch: Batch)
        ensures
            batch.wf(),
            batch.targets@ == targets@,
            batch.outcomes@.len() == 0,
    {
        Batch { targets, outcomes: Vec::new() }
    }

    /// The target to attempt next: the first one without an outcome, or
    /// `None` once every target has had its attempt.
    pub fn next(&self) -> (target: Option<usize>)
        ensures
            target == if self.finished() {
                None
            } else {
                Some(self.targets@[self.outcomes@.len() as int])
            },
    {
        let done = self.outcomes.len();
        if done < self.targets.len() {
            Some(self.targets[done])
        } else {
            None
        }
    }

    /// Records the outcome of the attempt on the next target and moves on to
    /// the one after it, whether the attempt succeeded or not. Returns false,
    /// and records nothing, when every target already has its outcome.
    pub fn record(&mut self, removed: bool) -> (accepted: bool)
        ensures
            old(self).wf() ==> final(self).wf(),
            final(self).targets@ == old(self).targets@,
            accepted == !old(self).finished(),
            accepted ==> final(self).outcomes@ == old(self).outcomes@.push(removed),
            !accepted ==> final(self).outcomes@ == old(self).outcomes@,
    {
        if self.outcomes.len() < self.targets.len() {
            self.outcomes.push(removed);
            true
        } else {
            false
        }
    }

    /// Tells whether every target has had its attempt.
    pub fn is_finished(&self) -> (done: bool)
        ensures
            done == self.finished(),
    {
        self.outcomes.len() >= self.targets.len()
    }

    fn count(&self, flag: bool) -> (n: usize)
        ensures
            n == count_of(self.outcomes@, flag),
    {
        let mut n: usize = 0;
        let mut i: usize = 0;
        proof {
            assert(self.outcomes@.take(0) =~= Seq::<bool>::empty());
        }
        while i < self.outcomes.len()
            invariant
                i <= self.outcomes.len(),
                n <= i,
                n == count_of(self.outcomes@.take(i as int), flag),
            decreases self.outcomes.len() - i,
        {
            proof {
                assert(self.outcomes@.take(i + 1).drop_last() =~= self.outcomes@.take(i as int));
            }
            if self.outcomes[i] == flag {
                n += 1;
            }
            i += 1;
        }
        proof {
            assert(self.outcomes@.take(i as int) =~= self.outcomes@);
        }
        n
    }

    /// The number of attempts that removed their target.
    pub fn removed_count(&self) -> (n: usize)
        ensures
            n == count_of(self.outcomes@, true),
    {
        self.count(true)
    }

    /// The number of attempts that failed.
    pub fn failed_count(&self) -> (n: usize)
        ensures
            n == count_of(self.outcomes@, false),
    {
        self.count(false)
    }

    /// Tells whether any attempt so far failed: the batch's failure status.
    pub fn any_failed(&self) -> (failed: bool)
        ensures
            failed == self.outcomes@.contains(false),
            failed == (count_of(self.outcomes@, false) > 0),
    {
        proof {
            lemma_counts(self.outcomes@);
        }
        self.count(false) > 0
    }
}

} // verus!
