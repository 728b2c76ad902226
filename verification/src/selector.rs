//! The selector: the state machine that decides, from the mode flags, the
//! operator's picks and the operator's answer, whether anything is removed.

use vstd::prelude::*;
use crate::confirm::{affirmative, is_affirmative};
use crate::selection::{
    all_below, distinct, every_index, first_out_of_range, lemma_distinct, select_all,
    without_repeats,
};

verus! {

/// The flags that steer a selector.
#[derive(Clone, Copy, Debug, PartialEq, Eq, Structural)]
pub struct Mode {
    /// The operator picks items one by one.
    pub interactive: bool,
    /// Skip the confirmation prompt when every listed item is selected
    /// without the operator picking.
    pub yes: bool,
    /// Nothing is removed; what would be is reported.
    pub dry_run: bool,
}

/// Where a selector stands.
#[derive(Clone, Copy, Debug, PartialEq, Eq, Structural)]
pub enum Stage {
    Listed,
    AwaitingSelection,
    AwaitingConfirmation,
    DryRunExit,
    EmptyExit,
    Confirmed,
    Aborted,
}

/// What the caller has to do next for a selector.
#[derive(Clone, Copy, Debug, PartialEq, Eq, Structural)]
pub enum Action {
    /// Call [`Selector::begin`].
    Begin,
    /// Show the candidates and hand the picks to [`Selector::pick`].
    AskSelection,
    /// Ask yes or no and hand the answer to [`Selector::answer`].
    AskConfirmation,
    /// Report the selection as what would be removed, and stop.
    ReportWouldRemove,
    /// Remove the selection.
    Remove,
    /// Report that the operator refused, and stop.
    ReportAborted,
    /// Nothing to do.
    Finish,
}

/// Why a set of picks was turned down.
#[derive(Clone, Copy, Debug, PartialEq, Eq, Structural)]
pub enum SelectionError {
    /// The selector is not waiting for picks.
    NotAwaitingSelection,
    /// The pick at this position names no candidate.
    OutOfRange { position: usize },
}

/// The stage that follows the listing of `candidates` items.
pub open spec fn after_listing(mode: Mode, candidates: nat) -> Stage {
    if candidates == 0 {
        Stage::EmptyExit
    } else if mode.dry_run {
        Stage::DryRunExit
    } else if mode.interactive {
        Stage::AwaitingSelection
    } else if mode.yes {
        Stage::Confirmed
    } else {
        Stage::AwaitingConfirmation
    }
}

/// The stage that follows an answer to the confirmation prompt.
pub open spec fn after_answer(reply: Seq<char>) -> Stage {
    if affirmative(reply) {
        Stage::Confirmed
    } else {
        Stage::Aborted
    }
}

/// The action that a stage asks of the caller.
pub open spec fn action_of(stage: Stage) -> Action {
    match stage {
        Stage::Listed => Action::Begin,
        Stage::AwaitingSelection => Action::AskSelection,
        Stage::AwaitingConfirmation => Action::AskConfirmation,
        Stage::DryRunExit => Action::ReportWouldRemove,
        Stage::EmptyExit => Action::Finish,
        Stage::Confirmed => Action::Remove,
        Stage::Aborted => Action::ReportAborted,
    }
}

/// A selector over `candidates` listed items.
#[derive(Debug)]
pub struct Selector {
    pub mode: Mode,
    pub candidates: usize,
    pub stage: Stage,
    pub selection: Vec<usize>,
}

impl Selector {
    /// The selection names candidates only, names none twice, and fits the
    /// stage; under dry run the selector never leaves the stages that remove
    /// nothing.
    pub open spec fn wf(&self) -> bool {
        &&& all_below(self.selection@, self.candidates as nat)
        &&& self.selection@.no_duplicates()
        &&& (self.stage == Stage::Listed || self.stage == Stage::AwaitingSelection || self.stage
            == Stage::EmptyExit) ==> self.selection@.len() == 0
        &&& (self.stage == Stage::AwaitingConfirmation || self.stage == Stage::Confirmed
            || self.stage == Stage::Aborted || self.stage == Stage::DryRunExit)
            ==> self.selection@.len() > 0
        &&& self.stage == Stage::AwaitingSelection ==> self.mode.interactive
        &&& self.mode.dry_run ==> (self.stage == Stage::Listed || self.stage == Stage::EmptyExit
            || self.stage == Stage::DryRunExit)
    }

    /// The indices to remove: the selection once confirmed, nothing before
    /// that and nothing after a refusal or under dry run.
    pub open spec fn removals(&self) -> Seq<usize> {
        if self.stage == Stage::Confirmed {
            self.selection@
        } else {
            Seq::empty()
        }
    }

    /// The indices to report as what a dry run would remove.
    pub open spec fn would_remove(&self) -> Seq<usize> {
        if self.stage == Stage::DryRunExit {
            self.selection@
        } else {
            Seq::empty()
        }
    }

    /// A selector for `candidates` items that have just been listed.
    pub fn new(mode: Mode, candidates: usize) -> (selector: Selector)
        ensures
            selector.wf(),
            selector.mode == mode,
            selector.candidates == candidates,
            selector.stage == Stage::Listed,
            selector.selection@.len() == 0,
    {
        Selector { mode, candidates, stage: Stage::Listed, selection: Vec::new() }
    }

    /// Leaves `Listed`. With no candidates the selector exits empty. Under
    /// dry run it exits with every candidate reported. Interactively it waits
    /// for picks. Otherwise every candidate is selected, and confirmation is
    /// awaited unless `yes` is set. In any other stage nothing changes.
    pub fn begin(&mut self)
        ensures
            old(self).wf() ==> final(self).wf(),
            final(self).mode == old(self).mode,
            final(self).candidates == old(self).candidates,
            old(self).stage != Stage::Listed ==> final(self).stage == old(self).stage,
            old(self).stage != Stage::Listed ==> final(self).selection@ == old(self).selection@,
            old(self).stage == Stage::Listed ==> final(self).stage == after_listing(
                old(self).mode,
                old(self).candidates as nat,
            ),
            old(self).stage == Stage::Listed ==> final(self).selection@ == if final(self).stage
                == Stage::EmptyExit || final(self).stage == Stage::AwaitingSelection {
                Seq::<usize>::empty()
            } else {
                every_index(old(self).candidates as nat)
            },
    {
        if self.stage != Stage::Listed {
            return ;
        }
        if self.candidates == 0 {
            self.selection = Vec::new();
            self.stage = Stage::EmptyExit;
        } else if self.mode.dry_run {
            self.selection = select_all(self.candidates);
            self.stage = Stage::DryRunExit;
        } else if self.mode.interactive {
            self.selection = Vec::new();
            self.stage = Stage::AwaitingSelection;
        } else {
            self.selection = select_all(self.candidates);
            if self.mode.yes {
                self.stage = Stage::Confirmed;
            } else {
                self.stage = Stage::AwaitingConfirmation;
            }
        }
    }

    /// Takes the operator's picks. Picks are accepted only while the selector
    /// awaits them and only if each names a candidate; repeats are dropped.
    /// No pick at all exits empty; otherwise confirmation is awaited.
    pub fn pick(&mut self, picked: &Vec<usize>) -> (outcome: Result<(), SelectionError>)
        ensures
            old(self).wf() ==> final(self).wf(),
            final(self).mode == old(self).mode,
            final(self).candidates == old(self).candidates,
            outcome.is_err() ==> final(self).stage == old(self).stage && final(self).selection@
                == old(self).selection@,
            old(self).stage != Stage::AwaitingSelection ==> outcome == Err::<(), SelectionError>(
                SelectionError::NotAwaitingSelection,
            ),
            old(self).stage == Stage::AwaitingSelection && !all_below(
                picked@,
                old(self).candidates as nat,
            ) ==> (match outcome {
                Err(SelectionError::OutOfRange { position }) => position < picked@.len()
                    && picked@[position as int] >= old(self).candidates && all_below(
                    picked@.take(position as int),
                    old(self).candidates as nat,
                ),
                _ => false,
            }),
            old(self).stage == Stage::AwaitingSelection && all_below(
                picked@,
                old(self).candidates as nat,
            ) ==> {
                &&& outcome.is_ok()
                &&& final(self).selection@ == distinct(picked@)
                &&& final(self).stage == if picked@.len() == 0 {
                    Stage::EmptyExit
                } else {
                    Stage::AwaitingConfirmation
                }
            },
    {
        if self.stage != Stage::AwaitingSelection {
            return Err(SelectionError::NotAwaitingSelection);
        }
        match first_out_of_range(picked, self.candidates) {
            Some(position) => Err(SelectionError::OutOfRange { position }),
            None => {
                let unique = without_repeats(picked);
                proof {
                    lemma_distinct(picked@);
                    assert forall|i: int| 0 <= i < unique@.len() implies (#[trigger] unique@[i])
                        < self.candidates by {
                        assert(unique@.contains(unique@[i]));
                        assert(picked@.contains(unique@[i]));
                    }
                }
                if unique.len() == 0 {
                    self.stage = Stage::EmptyExit;
                } else {
                    self.stage = Stage::AwaitingConfirmation;
                }
                self.selection = unique;
                Ok(())
            },
        }
    }

    /// Takes the operator's answer to the confirmation prompt. Only "y" or
    /// "yes" confirms; anything else, a blank answer included, aborts. In any
    /// stage but `AwaitingConfirmation` nothing changes.
    pub fn answer(&mut self, reply: &str)
        ensures
            old(self).wf() ==> final(self).wf(),
            final(self).mode == old(self).mode,
            final(self).candidates == old(self).candidates,
            final(self).selection@ == old(self).selection@,
            old(self).stage != Stage::AwaitingConfirmation ==> final(self).stage
                == old(self).stage,
            old(self).stage == Stage::AwaitingConfirmation ==> final(self).stage == after_answer(
                reply@,
            ),
            old(self).stage == Stage::AwaitingConfirmation && !affirmative(reply@)
                ==> final(self).stage == Stage::Aborted && final(self).removals().len() == 0,
    {
        if self.stage != Stage::AwaitingConfirmation {
            return ;
        }
        if is_affirmative(reply) {
            self.stage = Stage::Confirmed;
        } else {
            self.stage = Stage::Aborted;
        }
    }

    /// What the caller has to do next.
    pub fn action(&self) -> (next: Action)
        ensures
            next == action_of(self.stage),
    {
        match self.stage {
            Stage::Listed => Action::Begin,
            Stage::AwaitingSelection => Action::AskSelection,
            Stage::AwaitingConfirmation => Action::AskConfirmation,
            Stage::DryRunExit => Action::ReportWouldRemove,
            Stage::EmptyExit => Action::Finish,
            Stage::Confirmed => Action::Remove,
            Stage::Aborted => Action::ReportAborted,
        }
    }

    /// True once no further input can change the selector.
    pub fn is_finished(&self) -> (done: bool)
        ensures
            done == (self.stage == Stage::DryRunExit || self.stage == Stage::EmptyExit
                || self.stage == Stage::Confirmed || self.stage == Stage::Aborted),
    {
        match self.stage {
            Stage::DryRunExit | Stage::EmptyExit | Stage::Confirmed | Stage::Aborted => true,
            _ => false,
        }
    }

    /// The indices to remove now: the selection if it is confirmed, else none.
    pub fn to_remove(&self) -> (indices: Vec<usize>)
        ensures
            indices@ == self.removals(),
    {
        match self.stage {
            Stage::Confirmed => self.selection.clone(),
            _ => Vec::new(),
        }
    }

    /// The indices a dry run reports: the selection at `DryRunExit`, else none.
    pub fn to_report(&self) -> (indices: Vec<usize>)
        ensures
            indices@ == self.would_remove(),
    {
        match self.stage {
            Stage::DryRunExit => self.selection.clone(),
            _ => Vec::new(),
        }
    }
}

/// Under dry run a selector never holds anything to remove, whatever the
/// other flags are and whatever picks and answers it was given.
pub proof fn lemma_dry_run_removes_nothing(selector: Selector)
    requires
        selector.wf(),
        selector.mode.dry_run,
    ensures
        selector.removals().len() == 0,
        selector.stage != Stage::Confirmed,
        action_of(selector.stage) != Action::Remove,
        action_of(selector.stage) != Action::AskConfirmation,
        action_of(selector.stage) != Action::AskSelection,
{
}

/// Only a confirmed selector asks for removal, and what it removes are
/// distinct candidates.
pub proof fn lemma_removals_are_confirmed_candidates(selector: Selector)
    requires
        selector.wf(),
    ensures
        action_of(selector.stage) == Action::Remove <==> selector.stage == Stage::Confirmed,
        selector.stage != Stage::Confirmed ==> selector.removals().len() == 0,
        all_below(selector.removals(), selector.candidates as nat),
        selector.removals().no_duplicates(),
{
}

} // verus!
