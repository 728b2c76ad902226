//! The text of a report: sizes in binary units, labels and numbered lines.

use vstd::prelude::*;
use vstd::string::{StrSliceExecFns, StringExecFns};
use crate::entry::Entry;
use crate::selection::all_below;
use crate::sizes::{space_in_use, used_space};
use crate::stale::{age_days, age_in_days};

verus! {

/// The text that `humansize::format_size` gives for a byte count under its
/// `BINARY` options: the count scaled by powers of 1024, with a unit such as
/// `KiB` or `MiB`.
pub uninterp spec fn binary_size_text(bytes: u64) -> Seq<char>;

/// Calls `humansize::format_size(bytes, BINARY)`. The contract only names the
/// text it returns, which depends on the byte count alone; nothing is claimed
/// about what the text looks like.
#[verifier::external_body]
fn format_binary(bytes: u64) -> (text: String)
    ensures
        text@ == binary_size_text(bytes),
{
    humansize::format_size(bytes, humansize::BINARY)
}

/// The character of a decimal digit.
pub open spec fn digit_char(d: nat) -> char
    recommends
        d < 10,
{
    ((48 + d) as u8) as char
}

/// `n` in decimal, without sign or leading zeros.
pub open spec fn decimal_text(n: nat) -> Seq<char>
    decreases n,
{
    if n < 10 {
        seq![digit_char(n)]
    } else {
        decimal_text(n / 10).push(digit_char(n % 10))
    }
}

/// `text` filled up with spaces on the left to `width` characters; a longer
/// text is left as it is.
pub open spec fn padded(text: Seq<char>, width: nat) -> Seq<char> {
    if text.len() >= width {
        text
    } else {
        spaces((width - text.len()) as nat) + text
    }
}

/// `count` spaces.
pub open spec fn spaces(count: nat) -> Seq<char> {
    Seq::new(count, |i: int| ' ')
}

/// A size and a path, as one label.
pub open spec fn label_text(size: Seq<char>, path: Seq<char>) -> Seq<char> {
    size + " — "@ + path
}

/// A size, a path and an age in days, as one label.
pub open spec fn aged_label_text(size: Seq<char>, path: Seq<char>, days: nat) -> Seq<char> {
    label_text(size, path) + " — "@ + decimal_text(days) + " days"@
}

/// A line of a numbered list: the position right-aligned in three columns,
/// a full stop, and the body.
pub open spec fn numbered_text(position: nat, body: Seq<char>) -> Seq<char> {
    padded(decimal_text(position), 3) + ". "@ + body
}

/// One line of a dry run's report.
pub open spec fn would_remove_text(path: Seq<char>) -> Seq<char> {
    "- "@ + path
}

/// One line of the volume overview.
pub open spec fn volume_text(
    name: Seq<char>,
    total: Seq<char>,
    used: Seq<char>,
    free: Seq<char>,
) -> Seq<char> {
    "- "@ + name + " total: "@ + total + ", used: "@ + used + ", free: "@ + free
}

/// The label of an entry in the list of largest entries.
pub open spec fn entry_label_text(entry: Entry) -> Seq<char> {
    label_text(binary_size_text(entry.size), entry.path@)
}

/// The label of an entry in the list of stale entries, as of `now`.
pub open spec fn stale_label_text(entry: Entry, now: u64) -> Seq<char> {
    aged_label_text(
        binary_size_text(entry.size),
        entry.path@,
        age_in_days(now, entry.last_used) as nat,
    )
}

fn digit_text(d: u64) -> (text: &'static str)
    requires
        d < 10,
    ensures
        text@ == seq![digit_char(d as nat)],
{
    proof {
        reveal_strlit("0");
        reveal_strlit("1");
        reveal_strlit("2");
        reveal_strlit("3");
        reveal_strlit("4");
        reveal_strlit("5");
        reveal_strlit("6");
        reveal_strlit("7");
        reveal_strlit("8");
        reveal_strlit("9");
    }
    let text = if d == 0 {
        "0"
    } else if d == 1 {
        "1"
    } else if d == 2 {
        "2"
    } else if d == 3 {
        "3"
    } else if d == 4 {
        "4"
    } else if d == 5 {
        "5"
    } else if d == 6 {
        "6"
    } else if d == 7 {
        "7"
    } else if d == 8 {
        "8"
    } else {
        "9"
    };
    assert(text@ =~= seq![digit_char(d as nat)]);
    text
}

/// Writes `n` in decimal.
pub fn decimal(n: u64) -> (text: String)
    ensures
        text@ == decimal_text(n as nat),
    decreases n,
{
    let last = digit_text(n % 10);
    if n < 10 {
        String::from_str(last)
    } else {
        let mut text = decimal(n / 10);
        text.append(last);
        proof {
            assert(text@ =~= decimal_text(n as nat / 10).push(digit_char(n as nat % 10)));
        }
        text
    }
}

/// Right-aligns `text` in `width` columns.
pub fn pad_left(text: &str, width: usize) -> (out: String)
    ensures
        out@ == padded(text@, width as nat),
{
    let len = text.unicode_len();
    let mut out = String::new();
    let mut i: usize = len;
    proof {
        assert(out@ =~= spaces(0));
    }
    while i < width
        invariant
            len <= i,
            len < width ==> i <= width,
            len >= width ==> i == len,
            out@ == spaces((i - len) as nat),
        decreases width - i,
    {
        out.append(" ");
        i += 1;
        proof {
            reveal_strlit(" ");
            assert(out@ =~= spaces((i - len) as nat));
        }
    }
    out.append(text);
    proof {
        assert(out@ =~= padded(text@, width as nat));
    }
    out
}

/// Joins a size and a path into a label.
pub fn label(size: &str, path: &str) -> (out: String)
    ensures
        out@ == label_text(size@, path@),
{
    let mut out = String::from_str(size);
    out.append(" — ");
    out.append(path);
    out
}

/// Joins a size, a path and an age into a label.
pub fn aged_label(size: &str, path: &str, days: u64) -> (out: String)
    ensures
        out@ == aged_label_text(size@, path@, days as nat),
{
    let mut out = label(size, path);
    let age = decimal(days);
    out.append(" — ");
    out.append(age.as_str());
    out.append(" days");
    out
}

/// Numbers a line of a list.
pub fn numbered(position: usize, body: &str) -> (out: String)
    ensures
        out@ == numbered_text(position as nat, body@),
{
    let digits = decimal(position as u64);
    let mut out = pad_left(digits.as_str(), 3);
    out.append(". ");
    out.append(body);
    out
}

/// The line that reports a path a dry run would remove.
pub fn would_remove_line(path: &str) -> (out: String)
    ensures
        out@ == would_remove_text(path@),
{
    let mut out = String::from_str("- ");
    out.append(path);
    out
}

/// Joins a volume's name and its three sizes into a line of the overview.
pub fn volume_summary(name: &str, total: &str, used: &str, free: &str) -> (out: String)
    ensures
        out@ == volume_text(name@, total@, used@, free@),
{
    let mut out = String::from_str("- ");
    out.append(name);
    out.append(" total: ");
    out.append(total);
    out.append(", used: ");
    out.append(used);
    out.append(", free: ");
    out.append(free);
    out
}

/// The label of an entry: its size in binary units, then its path.
pub fn entry_label(entry: &Entry) -> (out: String)
    ensures
        out@ == entry_label_text(*entry),
{
    let size = format_binary(entry.size);
    label(size.as_str(), entry.path.as_str())
}

/// The label of a stale entry: its size in binary units, its path, and its
/// age in whole days as of `now`.
pub fn stale_label(entry: &Entry, now: u64) -> (out: String)
    ensures
        out@ == stale_label_text(*entry, now),
{
    let size = format_binary(entry.size);
    aged_label(size.as_str(), entry.path.as_str(), age_days(now, entry.last_used))
}

/// The overview line of a volume: its name, then its total, used and free
/// space in binary units.
pub fn volume_line(name: &str, total: u64, available: u64) -> (out: String)
    ensures
        out@ == volume_text(
            name@,
            binary_size_text(total),
            binary_size_text(space_in_use(total, available)),
            binary_size_text(available),
        ),
{
    let total_text = format_binary(total);
    let used_text = format_binary(used_space(total, available));
    let free_text = format_binary(available);
    volume_summary(name, total_text.as_str(), used_text.as_str(), free_text.as_str())
}

/// The labels of the entries, one for each, in order.
pub fn entry_labels(entries: &Vec<Entry>) -> (labels: Vec<String>)
    ensures
        labels@.len() == entries@.len(),
        forall|i: int|
            0 <= i < entries@.len() ==> (#[trigger] labels@[i])@ == entry_label_text(entries@[i]),
{
    let mut labels: Vec<String> = Vec::new();
    let mut i: usize = 0;
    while i < entries.len()
        invariant
            i <= entries.len(),
            labels@.len() == i,
            forall|k: int| 0 <= k < i ==> (#[trigger] labels@[k])@ == entry_label_text(entries@[k]),
        decreases entries.len() - i,
    {
        labels.push(entry_label(&entries[i]));
        i += 1;
    }
    labels
}

/// The labels of the stale entries as of `now`, one for each, in order.
pub fn stale_labels(entries: &Vec<Entry>, now: u64) -> (labels: Vec<String>)
    ensures
        labels@.len() == entries@.len(),
        forall|i: int|
            0 <= i < entries@.len() ==> (#[trigger] labels@[i])@ == stale_label_text(
                entries@[i],
                now,
            ),
{
    let mut labels: Vec<String> = Vec::new();
    let mut i: usize = 0;
    while i < entries.len()
        invariant
            i <= entries.len(),
            labels@.len() == i,
            forall|k: int| 0 <= k < i ==> (#[trigger] labels@[k])@ == stale_label_text(entries@[k], now),
        decreases entries.len() - i,
    {
        labels.push(stale_label(&entries[i], now));
        i += 1;
    }
    labels
}

/// The numbered list of the largest entries: line `i` carries the number
/// `i + 1` and the label of entry `i`.
pub fn top_lines(entries: &Vec<Entry>) -> (lines: Vec<String>)
    ensures
        lines@.len() == entries@.len(),
        forall|i: int| 0 <= i < entries@.len() ==> (#[trigger] lines@[i])@ == numbered_text(
            (i + 1) as nat,
            entry_label_text(entries@[i]),
        ),
{
    let mut lines: Vec<String> = Vec::new();
    let mut i: usize = 0;
    while i < entries.len()
        invariant
            i <= entries.len(),
            lines@.len() == i,
            forall|k: int| 0 <= k < i ==> (#[trigger] lines@[k])@ == numbered_text(
                (k + 1) as nat,
                entry_label_text(entries@[k]),
            ),
        decreases entries.len() - i,
    {
        let body = entry_label(&entries[i]);
        lines.push(numbered(i + 1, body.as_str()));
        i += 1;
    }
    lines
}

/// The numbered list of stale entries: line `i` carries the number `i + 1`,
/// the label of entry `i` as of `now`, and the word "old".
pub fn stale_lines(entries: &Vec<Entry>, now: u64) -> (lines: Vec<String>)
    ensures
        lines@.len() == entries@.len(),
        forall|i: int| 0 <= i < entries@.len() ==> (#[trigger] lines@[i])@ == numbered_text(
            (i + 1) as nat,
            stale_label_text(entries@[i], now) + " old"@,
        ),
{
    let mut lines: Vec<String> = Vec::new();
    let mut i: usize = 0;
    while i < entries.len()
        invariant
            i <= entries.len(),
            lines@.len() == i,
            forall|k: int| 0 <= k < i ==> (#[trigger] lines@[k])@ == numbered_text(
                (k + 1) as nat,
                stale_label_text(entries@[k], now) + " old"@,
            ),
        decreases entries.len() - i,
    {
        let mut body = stale_label(&entries[i], now);
        body.append(" old");
        lines.push(numbered(i + 1, body.as_str()));
        i += 1;
    }
    lines
}

/// The lines of a dry run's report: one for each selected entry, in the
/// order of the selection.
pub fn would_remove_lines(entries: &Vec<Entry>, selection: &Vec<usize>) -> (lines: Vec<String>)
    requires
        all_below(selection@, entries@.len()),
    ensures
        lines@.len() == selection@.len(),
        forall|i: int| 0 <= i < selection@.len() ==> (#[trigger] lines@[i])@ == would_remove_text(
            entries@[selection@[i] as int].path@,
        ),
{
    let mut lines: Vec<String> = Vec::new();
    let mut i: usize = 0;
    while i < selection.len()
        invariant
            i <= selection.len(),
            all_below(selection@, entries@.len()),
            lines@.len() == i,
            forall|k: int| 0 <= k < i ==> (#[trigger] lines@[k])@ == would_remove_text(
                entries@[selection@[k] as int].path@,
            ),
        decreases selection.len() - i,
    {
        let at = selection[i];
        lines.push(would_remove_line(entries[at].path.as_str()));
        i += 1;
    }
    lines
}

} // verus!
