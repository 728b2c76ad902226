use sdisk::command::{
    aggregates_directories, choices, command_or_default, confirmation_prompt, listing,
    mode_from_flags, offers_removal, scan_depth, selection_prompt, wants_aggregate, Command,
    DEFAULT_STALE_DAYS, DEFAULT_STALE_LIMIT, DEFAULT_TOP_COUNT,
};
use sdisk::confirm::{is_affirmative, is_whitespace};
use sdisk::entry::{Entry, EntryKind};
use sdisk::remover::{removal_for, Batch, Removal};
use sdisk::report::would_remove_lines;
use sdisk::selection::{contains_index, first_out_of_range, select_all, without_repeats};
use sdisk::selector::{Action, Mode, SelectionError, Selector, Stage};

fn mode(interactive: bool, yes: bool, dry_run: bool) -> Mode {
    Mode { interactive, yes, dry_run }
}

#[test]
fn affirmative_answers() {
    for a in ["y", "Y", "yes", "YES", "Yes", "yEs", " y", "y\n", "  yes \r\n", "\tY\t"] {
        assert!(is_affirmative(a), "{:?}", a);
    }
}

#[test]
fn other_answers_refuse() {
    for a in [
        "", " ", "\n", "n", "no", "N", "ye", "yess", "yy", "y es", "yes.", "1", "true", "oui",
        "ｙ", "y\u{0}", "\u{200b}y",
    ] {
        assert!(!is_affirmative(a), "{:?}", a);
    }
}

#[test]
fn affirmative_agrees_with_trim_and_lowercase() {
    let samples = [
        "y", "Y", "yes", "Yes", "\u{a0}yes\u{3000}", "\u{2003}y\u{2028}", "\u{85}YES", "yés",
        "ÝES", "\u{1680}y", "y\u{feff}", "ſ", "yeſ", "YE\u{17f}", "\u{212a}", "ye s", "",
    ];
    for a in samples {
        let t = a.trim().to_lowercase();
        assert_eq!(is_affirmative(a), t == "y" || t == "yes", "{:?}", a);
    }
}

#[test]
fn whitespace_agrees_with_std() {
    for n in 0u32..0x3100 {
        if let Some(c) = char::from_u32(n) {
            assert_eq!(is_whitespace(c), c.is_whitespace(), "{:x}", n);
        }
    }
    assert!(!is_whitespace('\u{feff}'));
}

#[test]
fn empty_listing_exits_without_prompt() {
    for i in [false, true] {
        for y in [false, true] {
            for d in [false, true] {
                let mut s = Selector::new(mode(i, y, d), 0);
                assert_eq!(s.action(), Action::Begin);
                s.begin();
                assert_eq!(s.stage, Stage::EmptyExit);
                assert_eq!(s.action(), Action::Finish);
                assert!(s.is_finished());
                assert!(s.to_remove().is_empty());
                assert!(s.to_report().is_empty());
            }
        }
    }
}

#[test]
fn dry_run_never_removes() {
    for i in [false, true] {
        for y in [false, true] {
            let mut s = Selector::new(mode(i, y, true), 4);
            s.begin();
            assert_eq!(s.stage, Stage::DryRunExit);
            assert_eq!(s.action(), Action::ReportWouldRemove);
            assert_eq!(s.to_report(), vec![0, 1, 2, 3]);
            assert!(s.to_remove().is_empty());
            assert_eq!(s.pick(&vec![1]), Err(SelectionError::NotAwaitingSelection));
            s.answer("yes");
            s.begin();
            assert_eq!(s.stage, Stage::DryRunExit);
            assert!(s.to_remove().is_empty());
            assert!(s.is_finished());
        }
    }
}

#[test]
fn non_interactive_with_yes_confirms_everything() {
    let mut s = Selector::new(mode(false, true, false), 3);
    s.begin();
    assert_eq!(s.stage, Stage::Confirmed);
    assert_eq!(s.action(), Action::Remove);
    assert_eq!(s.to_remove(), vec![0, 1, 2]);
}

#[test]
fn non_interactive_without_yes_asks() {
    let mut s = Selector::new(mode(false, false, false), 3);
    s.begin();
    assert_eq!(s.stage, Stage::AwaitingConfirmation);
    assert_eq!(s.action(), Action::AskConfirmation);
    assert!(s.to_remove().is_empty());
    assert!(!s.is_finished());
    s.answer("YES\n");
    assert_eq!(s.stage, Stage::Confirmed);
    assert_eq!(s.to_remove(), vec![0, 1, 2]);
}

#[test]
fn refusal_aborts_with_zero_removals() {
    for reply in ["", "\n", "n", "no", "nope", "yess", "y?", "0"] {
        let mut s = Selector::new(mode(false, false, false), 3);
        s.begin();
        s.answer(reply);
        assert_eq!(s.stage, Stage::Aborted, "{:?}", reply);
        assert_eq!(s.action(), Action::ReportAborted);
        assert!(s.to_remove().is_empty());
        assert!(s.is_finished());
        s.answer("yes");
        assert_eq!(s.stage, Stage::Aborted);
        assert!(s.to_remove().is_empty());
    }
}

#[test]
fn interactive_selection_then_confirmation() {
    let mut s = Selector::new(mode(true, false, false), 5);
    s.begin();
    assert_eq!(s.stage, Stage::AwaitingSelection);
    assert_eq!(s.action(), Action::AskSelection);
    assert_eq!(s.pick(&vec![3, 1, 3, 1, 4]), Ok(()));
    assert_eq!(s.stage, Stage::AwaitingConfirmation);
    assert_eq!(s.selection, vec![3, 1, 4]);
    assert!(s.to_remove().is_empty());
    s.answer("y");
    assert_eq!(s.stage, Stage::Confirmed);
    assert_eq!(s.to_remove(), vec![3, 1, 4]);
}

#[test]
fn interactive_selection_is_confirmed_even_with_yes() {
    let mut s = Selector::new(mode(true, true, false), 2);
    s.begin();
    assert_eq!(s.stage, Stage::AwaitingSelection);
    assert_eq!(s.pick(&vec![0]), Ok(()));
    assert_eq!(s.stage, Stage::AwaitingConfirmation);
    s.answer("no");
    assert_eq!(s.stage, Stage::Aborted);
    assert!(s.to_remove().is_empty());
}

#[test]
fn selecting_nothing_exits_empty() {
    let mut s = Selector::new(mode(true, false, false), 5);
    s.begin();
    assert_eq!(s.pick(&Vec::new()), Ok(()));
    assert_eq!(s.stage, Stage::EmptyExit);
    assert_eq!(s.action(), Action::Finish);
    assert!(s.to_remove().is_empty());
}

#[test]
fn out_of_range_pick_is_rejected() {
    let mut s = Selector::new(mode(true, false, false), 3);
    s.begin();
    assert_eq!(s.pick(&vec![0, 2, 3, 9]), Err(SelectionError::OutOfRange { position: 2 }));
    assert_eq!(s.stage, Stage::AwaitingSelection);
    assert!(s.selection.is_empty());
    assert_eq!(s.pick(&vec![2]), Ok(()));
    assert_eq!(s.selection, vec![2]);
}

#[test]
fn picks_outside_awaiting_selection_are_rejected() {
    let mut s = Selector::new(mode(true, false, false), 3);
    assert_eq!(s.pick(&vec![0]), Err(SelectionError::NotAwaitingSelection));
    assert_eq!(s.stage, Stage::Listed);
    s.answer("yes");
    assert_eq!(s.stage, Stage::Listed);
}

#[test]
fn clean_dry_run_with_yes_reports_both() {
    let entries = vec![
        Entry::new("/data/old.log".to_string(), 10, EntryKind::File, 0),
        Entry::new("/data/older.log".to_string(), 20, EntryKind::File, 0),
    ];
    let m = mode_from_flags(false, true, true);
    assert!(offers_removal(Command::Clean, m));
    let mut s = Selector::new(m, entries.len());
    s.begin();
    assert_eq!(s.action(), Action::ReportWouldRemove);
    let lines = would_remove_lines(&entries, &s.to_report());
    assert_eq!(lines, vec!["- /data/old.log", "- /data/older.log"]);
    assert!(s.to_remove().is_empty());
    let batch = Batch::new(s.to_remove());
    assert_eq!(batch.next(), None);
    assert!(!batch.any_failed());
}

#[test]
fn selection_helpers() {
    assert_eq!(select_all(0), Vec::<usize>::new());
    assert_eq!(select_all(4), vec![0, 1, 2, 3]);
    assert_eq!(first_out_of_range(&vec![0, 1, 2], 3), None);
    assert_eq!(first_out_of_range(&vec![0, 3, 5], 3), Some(1));
    assert_eq!(first_out_of_range(&vec![0], 0), Some(0));
    assert_eq!(first_out_of_range(&Vec::new(), 0), None);
    assert!(contains_index(&vec![4, 2], 2));
    assert!(!contains_index(&vec![4, 2], 3));
    assert_eq!(without_repeats(&vec![2, 2, 1, 2, 0, 1]), vec![2, 1, 0]);
    assert_eq!(without_repeats(&Vec::new()), Vec::<usize>::new());
}

#[test]
fn removal_follows_kind() {
    let f = Entry::new("f".to_string(), 1, EntryKind::File, 0);
    let d = Entry::new("d".to_string(), 1, EntryKind::Directory, 0);
    assert_eq!(removal_for(&f), Removal::Unlink);
    assert_eq!(removal_for(&d), Removal::RemoveTree);
}

#[test]
fn partial_failure_does_not_stop_the_batch() {
    let mut batch = Batch::new(vec![4, 7, 9]);
    let mut attempted = Vec::new();
    let mut removed = Vec::new();
    while let Some(target) = batch.next() {
        attempted.push(target);
        let ok = target != 7;
        if ok {
            removed.push(target);
        }
        assert!(batch.record(ok));
    }
    assert_eq!(attempted, vec![4, 7, 9]);
    assert_eq!(removed, vec![4, 9]);
    assert!(batch.is_finished());
    assert_eq!(batch.outcomes, vec![true, false, true]);
    assert_eq!(batch.removed_count(), 2);
    assert_eq!(batch.failed_count(), 1);
    assert!(batch.any_failed());
    assert!(!batch.record(true));
    assert_eq!(batch.outcomes.len(), 3);
}

#[test]
fn batch_without_failure_reports_success() {
    let mut batch = Batch::new(vec![0, 1]);
    assert!(!batch.is_finished());
    assert_eq!(batch.next(), Some(0));
    assert!(batch.record(true));
    assert_eq!(batch.next(), Some(1));
    assert!(batch.record(true));
    assert_eq!(batch.next(), None);
    assert!(!batch.any_failed());
    assert_eq!(batch.removed_count(), 2);
    assert_eq!(batch.failed_count(), 0);
}

#[test]
fn empty_batch_is_finished() {
    let mut batch = Batch::new(Vec::new());
    assert!(batch.is_finished());
    assert_eq!(batch.next(), None);
    assert!(!batch.record(false));
    assert!(!batch.any_failed());
}

#[test]
fn command_defaults() {
    assert_eq!(command_or_default(None), Command::Info);
    assert_eq!(command_or_default(Some(Command::Clean)), Command::Clean);
    assert_eq!(DEFAULT_TOP_COUNT, 20);
    assert_eq!(DEFAULT_STALE_LIMIT, 100);
    assert_eq!(DEFAULT_STALE_DAYS, 90);
    assert_eq!(scan_depth(Command::Top), Some(3));
    assert_eq!(scan_depth(Command::Stale), None);
    assert_eq!(scan_depth(Command::Clean), None);
    assert!(!aggregates_directories(Command::Top));
    assert!(aggregates_directories(Command::Stale));
    assert!(aggregates_directories(Command::Clean));
}

#[test]
fn mode_and_offer() {
    let m = mode_from_flags(true, false, false);
    assert_eq!(m, Mode { interactive: false, yes: false, dry_run: false });
    assert!(!offers_removal(Command::Top, m));
    assert!(offers_removal(Command::Stale, m));
    assert!(offers_removal(Command::Clean, m));
    assert!(!offers_removal(Command::Info, m));
    let i = mode_from_flags(false, true, true);
    assert_eq!(i, Mode { interactive: true, yes: true, dry_run: true });
    assert!(offers_removal(Command::Top, i));
}

#[test]
fn listing_and_choices_follow_the_command() {
    let now = 1_700_000_000u64;
    let entries = vec![Entry::new("/b".to_string(), 2048, EntryKind::File, now - 100 * 86400)];
    assert_eq!(listing(Command::Top, &entries, now), vec!["  1. 2 KiB — /b"]);
    assert_eq!(listing(Command::Stale, &entries, now), vec!["  1. 2 KiB — /b — 100 days old"]);
    assert_eq!(listing(Command::Clean, &entries, now), vec!["  1. 2 KiB — /b — 100 days old"]);
    assert!(listing(Command::Info, &entries, now).is_empty());
    assert_eq!(choices(Command::Top, &entries, now), vec!["2 KiB — /b"]);
    assert_eq!(choices(Command::Clean, &entries, now), vec!["2 KiB — /b — 100 days"]);
}

#[test]
fn prompts_follow_the_command() {
    let interactive = mode(true, false, false);
    let scripted = mode(false, false, false);
    assert_eq!(
        selection_prompt(Command::Top),
        "Select files to delete (space to toggle, enter to confirm)"
    );
    assert_eq!(
        selection_prompt(Command::Stale),
        "Select items to delete (space to toggle, enter to confirm)"
    );
    assert_eq!(confirmation_prompt(Command::Top, interactive), "Delete selected files?");
    assert_eq!(confirmation_prompt(Command::Stale, interactive), "Delete selected items?");
    assert_eq!(confirmation_prompt(Command::Clean, scripted), "Delete the above items?");
}

#[test]
fn only_stale_directories_are_aggregated() {
    let now = 1_700_000_000u64;
    let old_dir = Entry::new("/d".to_string(), 0, EntryKind::Directory, now - 91 * 86400);
    let new_dir = Entry::new("/n".to_string(), 0, EntryKind::Directory, now - 86400);
    let old_file = Entry::new("/f".to_string(), 0, EntryKind::File, now - 91 * 86400);
    assert!(wants_aggregate(Command::Stale, &old_dir, now, 90));
    assert!(wants_aggregate(Command::Clean, &old_dir, now, 90));
    assert!(!wants_aggregate(Command::Top, &old_dir, now, 90));
    assert!(!wants_aggregate(Command::Stale, &new_dir, now, 90));
    assert!(!wants_aggregate(Command::Stale, &old_file, now, 90));
}
