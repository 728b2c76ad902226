//! The commands, their defaults, and what each of them reports.

use vstd::prelude::*;
use crate::entry::{Entry, EntryKind};
use crate::rank::{rank, ranked};
use crate::report::{
    entry_label_text, entry_labels, numbered_text, stale_label_text, stale_labels, stale_lines,
    top_lines,
};
use crate::selector::Mode;
use crate::stale::{cutoff_of, is_stale_after, stale_at, stale_only, stale_report};

verus! {

/// Entries shown by `top` when no count is given.
pub const DEFAULT_TOP_COUNT: usize = 20;

/// Entries shown by `stale` and `clean` when no limit is given.
pub const DEFAULT_STALE_LIMIT: usize = 100;

/// Days without use after which an entry is stale, when none are given.
pub const DEFAULT_STALE_DAYS: u64 = 90;

/// How far below each root `top` looks.
pub const TOP_DEPTH: usize = 3;

/// The commands.
#[derive(Clone, Copy, Debug, PartialEq, Eq, Structural)]
pub enum Command {
    /// The overview of the volumes.
    Info,
    /// The largest entries near the roots.
    Top,
    /// The stale entries, largest first.
    Stale,
    /// The same as `Stale`, named for its purpose.
    Clean,
}

/// What the given command reports of a scan: `top` ranks every entry,
/// `stale` and `clean` rank the stale ones, `info` reports no entry.
pub open spec fn report_of(
    command: Command,
    entries: Seq<Entry>,
    now: u64,
    days: u64,
    limit: nat,
) -> Seq<Entry> {
    match command {
        Command::Info => Seq::empty(),
        Command::Top => ranked(entries, limit),
        Command::Stale | Command::Clean => ranked(stale_only(entries, cutoff_of(now, days)), limit),
    }
}

/// The command to run when none is named: the overview.
pub fn command_or_default(command: Option<Command>) -> (chosen: Command)
    ensures
        chosen == match command {
            Some(c) => c,
            None => Command::Info,
        },
{
    match command {
        Some(c) => c,
        None => Command::Info,
    }
}

/// The selector's mode for the flags of a command line.
pub fn mode_from_flags(non_interactive: bool, yes: bool, dry_run: bool) -> (mode: Mode)
    ensures
        mode == (Mode { interactive: !non_interactive, yes, dry_run }),
{
    Mode { interactive: !non_interactive, yes, dry_run }
}

/// The depth to which a command walks below each root; `None` is unbounded.
pub fn scan_depth(command: Command) -> (depth: Option<usize>)
    ensures
        depth == match command {
            Command::Top => Some(TOP_DEPTH),
            _ => None::<usize>,
        },
{
    match command {
        Command::Top => Some(TOP_DEPTH),
        _ => None,
    }
}

/// Whether a directory's size is the sum of the files beneath it (`stale`,
/// `clean`) or the directory's own (`top`).
pub fn aggregates_directories(command: Command) -> (deep: bool)
    ensures
        deep == (command == Command::Stale || command == Command::Clean),
{
    match command {
        Command::Stale | Command::Clean => true,
        _ => false,
    }
}

/// Whether a command goes on to offer removal after its list: `stale` and
/// `clean` always do, `top` only interactively, `info` never.
pub fn offers_removal(command: Command, mode: Mode) -> (offered: bool)
    ensures
        offered == match command {
            Command::Info => false,
            Command::Top => mode.interactive,
            Command::Stale | Command::Clean => true,
        },
{
    match command {
        Command::Info => false,
        Command::Top => mode.interactive,
        Command::Stale | Command::Clean => true,
    }
}

/// Builds the report of a command from the entries of its scan.
pub fn report(
    command: Command,
    entries: &Vec<Entry>,
    now: u64,
    days: u64,
    limit: usize,
) -> (listed: Vec<Entry>)
    ensures
        listed@ == report_of(command, entries@, now, days, limit as nat),
{
    match command {
        Command::Info => Vec::new(),
        Command::Top => rank(entries, limit),
        Command::Stale | Command::Clean => stale_report(entries, now, days, limit),
    }
}

/// The label under which a command offers an entry for selection.
pub open spec fn choice_text(command: Command, entry: Entry, now: u64) -> Seq<char> {
    match command {
        Command::Top => entry_label_text(entry),
        _ => stale_label_text(entry, now),
    }
}

/// The line with which a command lists the entry at `index` of its report.
pub open spec fn listing_text(command: Command, entry: Entry, index: int, now: u64) -> Seq<char> {
    match command {
        Command::Top => numbered_text((index + 1) as nat, entry_label_text(entry)),
        _ => numbered_text((index + 1) as nat, stale_label_text(entry, now) + " old"@),
    }
}

/// The prompt above the list from which the operator picks.
pub open spec fn selection_prompt_text(command: Command) -> Seq<char> {
    match command {
        Command::Top => "Select files to delete (space to toggle, enter to confirm)"@,
        _ => "Select items to delete (space to toggle, enter to confirm)"@,
    }
}

/// The yes/no question asked before anything is removed.
pub open spec fn confirmation_prompt_text(command: Command, mode: Mode) -> Seq<char> {
    match command {
        Command::Top => "Delete selected files?"@,
        _ => if mode.interactive {
            "Delete selected items?"@
        } else {
            "Delete the above items?"@
        },
    }
}

/// Whether the size of `entry` is to be replaced by the sum of the files
/// beneath it: only for a stale directory, and only where the command
/// aggregates.
pub fn wants_aggregate(command: Command, entry: &Entry, now: u64, days: u64) -> (wanted: bool)
    ensures
        wanted == ((command == Command::Stale || command == Command::Clean) && entry.kind
            == EntryKind::Directory && stale_at(*entry, cutoff_of(now, days))),
{
    aggregates_directories(command) && !entry.is_file() && is_stale_after(entry, now, days)
}

/// The numbered lines with which a command lists its report; `info` lists
/// no entries.
pub fn listing(command: Command, listed: &Vec<Entry>, now: u64) -> (lines: Vec<String>)
    ensures
        lines@.len() == if command == Command::Info {
            0
        } else {
            listed@.len()
        },
        forall|i: int|
            0 <= i < lines@.len() ==> (#[trigger] lines@[i])@ == listing_text(
                command,
                listed@[i],
                i,
                now,
            ),
{
    match command {
        Command::Info => Vec::new(),
        Command::Top => top_lines(listed),
        Command::Stale | Command::Clean => stale_lines(listed, now),
    }
}

/// The labels under which a command offers its report for selection.
pub fn choices(command: Command, listed: &Vec<Entry>, now: u64) -> (labels: Vec<String>)
    ensures
        labels@.len() == listed@.len(),
        forall|i: int|
            0 <= i < labels@.len() ==> (#[trigger] labels@[i])@ == choice_text(
                command,
                listed@[i],
                now,
            ),
{
    match command {
        Command::Top => entry_labels(listed),
        _ => stale_labels(listed, now),
    }
}

/// The prompt above the list from which the operator picks.
pub fn selection_prompt(command: Command) -> (text: &'static str)
    ensures
        text@ == selection_prompt_text(command),
{
    match command {
        Command::Top => "Select files to delete (space to toggle, enter to confirm)",
        _ => "Select items to delete (space to toggle, enter to confirm)",
    }
}

/// The yes/no question asked before anything is removed.
pub fn confirmation_prompt(command: Command, mode: Mode) -> (text: &'static str)
    ensures
        text@ == confirmation_prompt_text(command, mode),
{
    match command {
        Command::Top => "Delete selected files?",
        _ => if mode.interactive {
            "Delete selected items?"
        } else {
            "Delete the above items?"
        },
    }
}

} // verus!
