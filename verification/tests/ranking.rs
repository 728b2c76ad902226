use sdisk::command::{report, Command};
use sdisk::entry::{last_used_time, Entry, EntryKind};
use sdisk::rank::rank;
use sdisk::stale::{age_days, cutoff, is_stale, is_stale_after, stale_entries, stale_report};

const DAY: u64 = 86400;
const NOW: u64 = 1_700_000_000;

fn file(path: &str, size: u64, last_used: u64) -> Entry {
    Entry::new(path.to_string(), size, EntryKind::File, last_used)
}

fn paths(entries: &[Entry]) -> Vec<String> {
    entries.iter().map(|e| e.path.clone()).collect()
}

fn sample() -> Vec<Entry> {
    vec![
        file("A", 500, NOW),
        file("B", 10 * 1024 * 1024, NOW - 200 * DAY),
        file("C", 1024, NOW - 5 * DAY),
    ]
}

#[test]
fn rank_orders_by_size_descending() {
    let ranked = rank(&sample(), 3);
    assert_eq!(paths(&ranked), vec!["B", "C", "A"]);
    assert_eq!(ranked[0].size, 10 * 1024 * 1024);
    assert_eq!(ranked[0].last_used, NOW - 200 * DAY);
    assert_eq!(ranked[0].kind, EntryKind::File);
}

#[test]
fn rank_truncates_to_limit() {
    let ranked = rank(&sample(), 2);
    assert_eq!(paths(&ranked), vec!["B", "C"]);
}

#[test]
fn rank_with_zero_limit_is_empty() {
    assert!(rank(&sample(), 0).is_empty());
}

#[test]
fn rank_with_large_limit_returns_everything() {
    let ranked = rank(&sample(), 1000);
    assert_eq!(ranked.len(), 3);
    assert_eq!(paths(&ranked), vec!["B", "C", "A"]);
}

#[test]
fn rank_of_nothing_is_empty() {
    assert!(rank(&Vec::new(), 5).is_empty());
}

#[test]
fn rank_leaves_input_untouched() {
    let input = sample();
    let _ = rank(&input, 2);
    assert_eq!(input, sample());
}

#[test]
fn rank_keeps_walk_order_among_equal_sizes() {
    let input = vec![
        file("first", 7, 0),
        file("big", 9, 0),
        file("second", 7, 0),
        file("small", 1, 0),
        file("third", 7, 0),
    ];
    let ranked = rank(&input, 5);
    assert_eq!(paths(&ranked), vec!["big", "first", "second", "third", "small"]);
    let first_three = rank(&input, 3);
    assert_eq!(paths(&first_three), vec!["big", "first", "second"]);
}

#[test]
fn rank_all_is_sorted_permutation() {
    let sizes: [u64; 12] = [5, 3, 9, 3, 0, u64::MAX, 7, 7, 1, 9, 2, 5];
    let input: Vec<Entry> =
        sizes.iter().enumerate().map(|(i, s)| file(&format!("p{}", i), *s, 0)).collect();
    let ranked = rank(&input, input.len());
    assert_eq!(ranked.len(), input.len());
    for pair in ranked.windows(2) {
        assert!(pair[0].size >= pair[1].size);
    }
    let mut got = paths(&ranked);
    let mut want = paths(&input);
    got.sort();
    want.sort();
    assert_eq!(got, want);
}

#[test]
fn rank_length_is_min_of_limit_and_count() {
    let input = sample();
    for k in 0..6usize {
        assert_eq!(rank(&input, k).len(), k.min(input.len()));
    }
}

#[test]
fn rank_with_small_limit_matches_prefix_of_full_ranking() {
    let sizes: [u64; 9] = [4, 8, 4, 1, 8, 6, 4, 9, 0];
    let input: Vec<Entry> =
        sizes.iter().enumerate().map(|(i, s)| file(&format!("p{}", i), *s, 0)).collect();
    let full = rank(&input, input.len());
    for k in 0..=input.len() {
        assert_eq!(rank(&input, k), full[..k].to_vec());
    }
}

#[test]
fn staleness_boundary_counts_as_stale() {
    let e = file("x", 1, 1000);
    assert!(is_stale(&e, 1000));
    assert!(is_stale(&e, 1001));
    assert!(!is_stale(&e, 999));
}

#[test]
fn staleness_is_monotonic_in_last_used() {
    let cut = 5000;
    for t1 in [0u64, 4999, 5000, 5001, 9000] {
        for t2 in [0u64, 4999, 5000, 5001, 9000] {
            if t1 <= t2 && is_stale(&file("b", 1, t2), cut) {
                assert!(is_stale(&file("a", 1, t1), cut));
            }
        }
    }
}

#[test]
fn cutoff_subtracts_whole_days() {
    assert_eq!(cutoff(NOW, 90), Some(NOW - 90 * 86400));
    assert_eq!(cutoff(NOW, 0), Some(NOW));
    assert_eq!(cutoff(86400, 1), Some(0));
    assert_eq!(cutoff(86399, 1), None);
    assert_eq!(cutoff(NOW, u64::MAX), None);
}

#[test]
fn zero_days_makes_everything_seen_stale() {
    assert!(is_stale_after(&file("a", 1, NOW), NOW, 0));
    assert!(is_stale_after(&file("a", 1, 0), NOW, 0));
    assert!(!is_stale_after(&file("a", 1, NOW + 1), NOW, 0));
}

#[test]
fn cutoff_before_epoch_makes_nothing_stale() {
    assert!(!is_stale_after(&file("a", 1, 0), 86399, 1));
    assert!(is_stale_after(&file("a", 1, 0), 86400, 1));
}

#[test]
fn age_in_whole_days() {
    assert_eq!(age_days(NOW, NOW - 200 * DAY), 200);
    assert_eq!(age_days(NOW, NOW - 200 * DAY + 1), 199);
    assert_eq!(age_days(NOW, NOW), 0);
    assert_eq!(age_days(NOW, NOW + 5 * DAY), 0);
    assert_eq!(age_days(NOW, 0), NOW / 86400);
}

#[test]
fn stale_entries_keep_order() {
    let input = vec![
        file("old-small", 1, NOW - 100 * DAY),
        file("fresh", 5, NOW - DAY),
        file("old-big", 9, NOW - 91 * DAY),
        file("edge", 3, NOW - 90 * DAY),
        file("just-inside", 3, NOW - 90 * DAY + 1),
    ];
    let stale = stale_entries(&input, NOW, 90);
    assert_eq!(paths(&stale), vec!["old-small", "old-big", "edge"]);
    let report = stale_report(&input, NOW, 90, 2);
    assert_eq!(paths(&report), vec!["old-big", "edge"]);
}

#[test]
fn three_files_top_and_stale() {
    let input = sample();
    let top = report(Command::Top, &input, NOW, 90, 2);
    assert_eq!(paths(&top), vec!["B", "C"]);
    let stale = report(Command::Stale, &input, NOW, 90, 100);
    assert_eq!(paths(&stale), vec!["B"]);
    let clean = report(Command::Clean, &input, NOW, 90, 100);
    assert_eq!(paths(&clean), vec!["B"]);
    assert!(report(Command::Info, &input, NOW, 90, 100).is_empty());
}

#[test]
fn last_used_prefers_access_time() {
    assert_eq!(last_used_time(Some(5), Some(9)), 5);
    assert_eq!(last_used_time(None, Some(9)), 9);
    assert_eq!(last_used_time(Some(5), None), 5);
    assert_eq!(last_used_time(None, None), 0);
}

#[test]
fn entry_kind_of_directory() {
    let d = Entry::new("d".to_string(), 0, EntryKind::Directory, 0);
    assert!(!d.is_file());
    assert!(file("f", 0, 0).is_file());
    assert_eq!(d.clone(), d);
}
