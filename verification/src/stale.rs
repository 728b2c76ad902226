//! Staleness: which entries were last used at or before a cutoff.

use vstd::prelude::*;
use crate::entry::Entry;
use crate::rank::{rank, ranked};

verus! {

/// Seconds in one day.
pub const SECONDS_PER_DAY: u64 = 86400;

/// The cutoff for a staleness threshold of `days` days, as seconds since the
/// epoch. It is negative when the threshold reaches back before the epoch.
pub open spec fn cutoff_of(now: u64, days: u64) -> int {
    now as int - days as int * 86400
}

/// An entry is stale when it was last used at or before the cutoff.
pub open spec fn stale_at(entry: Entry, cutoff: int) -> bool {
    entry.last_used as int <= cutoff
}

/// The stale entries of `s`, in the order they have in `s`.
pub open spec fn stale_only(s: Seq<Entry>, cutoff: int) -> Seq<Entry> {
    s.filter(|e: Entry| stale_at(e, cutoff))
}

/// Whole days elapsed between `last_used` and `now`; zero for a timestamp in
/// the future.
pub open spec fn age_in_days(now: u64, last_used: u64) -> int {
    if last_used <= now {
        (now - last_used) / 86400
    } else {
        0
    }
}

/// An entry at least as old as a stale one is stale too.
pub proof fn lemma_staleness_monotonic(older: Entry, newer: Entry, cutoff: int)
    requires
        older.last_used <= newer.last_used,
    ensures
        stale_at(newer, cutoff) ==> stale_at(older, cutoff),
        !stale_at(older, cutoff) ==> !stale_at(newer, cutoff),
{
}

/// An entry last used exactly at the cutoff counts as stale, and one second
/// later it does not.
pub proof fn lemma_staleness_boundary(entry: Entry)
    ensures
        stale_at(entry, entry.last_used as int),
        !stale_at(entry, entry.last_used as int - 1),
{
}

/// With a threshold of zero days every entry last used no later than now is
/// stale.
pub proof fn lemma_zero_days_cutoff_is_now(entry: Entry, now: u64)
    ensures
        cutoff_of(now, 0) == now,
        stale_at(entry, cutoff_of(now, 0)) == (entry.last_used <= now),
{
}

/// Filtering keeps exactly the stale entries: each one kept is a stale entry
/// of the input, and each stale entry of the input is kept.
pub proof fn lemma_stale_only_members(s: Seq<Entry>, cutoff: int)
    ensures
        forall|i: int|
            0 <= i < stale_only(s, cutoff).len() ==> stale_at(
                #[trigger] stale_only(s, cutoff)[i],
                cutoff,
            ) && s.contains(stale_only(s, cutoff)[i]),
        forall|i: int|
            0 <= i < s.len() && stale_at(#[trigger] s[i], cutoff) ==> stale_only(
                s,
                cutoff,
            ).contains(s[i]),
        stale_only(s, cutoff).len() <= s.len(),
    decreases s.len(),
{
    broadcast use vstd::seq_lib::group_filter_ensures;

    reveal(Seq::filter);
    let pred = |e: Entry| stale_at(e, cutoff);
    let out = stale_only(s, cutoff);
    assert(out.len() <= s.len());
    assert forall|i: int| 0 <= i < s.len() && stale_at(#[trigger] s[i], cutoff) implies out.contains(
        s[i],
    ) by {
        assert(pred(s[i]));
    }
    if s.len() > 0 {
        let init = s.drop_last();
        let sub = stale_only(init, cutoff);
        lemma_stale_only_members(init, cutoff);
        assert forall|i: int| 0 <= i < out.len() implies stale_at(#[trigger] out[i], cutoff)
            && s.contains(out[i]) by {
            if i < sub.len() {
                assert(out[i] == sub[i]);
                assert(init.contains(sub[i]));
                let j = choose|j: int| 0 <= j < init.len() && init[j] == sub[i];
                assert(s[j] == out[i]);
            } else {
                assert(out[i] == s[s.len() - 1]);
            }
        }
    }
}

/// Computes `now - days * 86400`, or `None` when that lies before the epoch.
pub fn cutoff(now: u64, days: u64) -> (limit: Option<u64>)
    ensures
        cutoff_of(now, days) >= 0 ==> limit == Some(cutoff_of(now, days) as u64),
        cutoff_of(now, days) < 0 ==> limit.is_none(),
{
    if days > now / SECONDS_PER_DAY {
        None
    } else {
        Some(now - days * SECONDS_PER_DAY)
    }
}

/// Tells whether `entry` was last used at or before `cutoff`.
pub fn is_stale(entry: &Entry, cutoff: u64) -> (stale: bool)
    ensures
        stale == (entry.last_used <= cutoff),
        stale == stale_at(*entry, cutoff as int),
{
    entry.last_used <= cutoff
}

/// Tells whether `entry` is stale `days` days before `now`.
pub fn is_stale_after(entry: &Entry, now: u64, days: u64) -> (stale: bool)
    ensures
        stale == stale_at(*entry, cutoff_of(now, days)),
{
    match cutoff(now, days) {
        Some(limit) => is_stale(entry, limit),
        None => false,
    }
}

/// Whole days since the entry was last used.
pub fn age_days(now: u64, last_used: u64) -> (days: u64)
    ensures
        days == age_in_days(now, last_used),
{
    if last_used <= now {
        (now - last_used) / SECONDS_PER_DAY
    } else {
        0
    }
}

/// Copies out the entries that are stale `days` days before `now`, keeping
/// their order.
pub fn stale_entries(entries: &Vec<Entry>, now: u64, days: u64) -> (stale: Vec<Entry>)
    ensures
        stale@ == stale_only(entries@, cutoff_of(now, days)),
{
    let mut stale: Vec<Entry> = Vec::new();
    let mut i: usize = 0;
    let ghost limit = cutoff_of(now, days);
    proof {
        assert(entries@.take(0) =~= Seq::<Entry>::empty());
        reveal(Seq::filter);
        assert(stale_only(entries@.take(0), limit) =~= stale@);
    }
    while i < entries.len()
        invariant
            i <= entries.len(),
            limit == cutoff_of(now, days),
            stale@ == stale_only(entries@.take(i as int), limit),
        decreases entries.len() - i,
    {
        let e = &entries[i];
        proof {
            assert(entries@.take(i + 1) =~= entries@.take(i as int).push(*e));
            entries@.take(i as int).lemma_filter_push(*e, |e: Entry| stale_at(e, limit));
        }
        if is_stale_after(e, now, days) {
            stale.push(e.clone());
        }
        i += 1;
    }
    proof {
        assert(entries@.take(i as int) =~= entries@);
    }
    stale
}

/// The stale entries, largest first, at most `limit` of them.
pub fn stale_report(entries: &Vec<Entry>, now: u64, days: u64, limit: usize) -> (report: Vec<Entry>)
    ensures
        report@ == ranked(stale_only(entries@, cutoff_of(now, days)), limit as nat),
{
    let stale = stale_entries(entries, now, days);
    rank(&stale, limit)
}

} // verus!
