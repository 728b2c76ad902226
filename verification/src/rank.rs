//! Ranking of entries by size, largest first, with a stable tie-break.

use vstd::prelude::*;
use crate::entry::Entry;

verus! {

/// Where an entry of the given size goes in `s`: the first index whose entry
/// is strictly smaller, or the end when there is none. Entries of equal size
/// already in `s` therefore stay in front of the newcomer.
pub open spec fn insert_pos(s: Seq<Entry>, size: u64) -> int
    decreases s.len(),
{
    if s.len() == 0 || s[0].size < size {
        0
    } else {
        1 + insert_pos(s.drop_first(), size)
    }
}

/// The entries of `s` ordered by size descending; entries of equal size keep
/// the order they had in `s`.
pub open spec fn sorted_desc(s: Seq<Entry>) -> Seq<Entry>
    decreases s.len(),
{
    if s.len() == 0 {
        s
    } else {
        let front = sorted_desc(s.drop_last());
        front.insert(insert_pos(front, s.last().size), s.last())
    }
}

/// The `limit` largest entries of `s`, largest first.
pub open spec fn ranked(s: Seq<Entry>, limit: nat) -> Seq<Entry> {
    sorted_desc(s).take(if limit <= s.len() { limit as int } else { s.len() as int })
}

/// Sizes never increase along `s`.
pub open spec fn non_increasing(s: Seq<Entry>) -> bool {
    forall|i: int, j: int| 0 <= i <= j < s.len() ==> s[i].size >= s[j].size
}

/// The entries of `s` whose size is `size`, in the order they have in `s`.
pub open spec fn of_size(s: Seq<Entry>, size: u64) -> Seq<Entry> {
    s.filter(|e: Entry| e.size == size)
}

/// `insert_pos` is a valid index into the sequence after insertion, everything
/// before it is at least as large as `size`, and the entry at it (if any) is
/// strictly smaller.
pub proof fn lemma_insert_pos(s: Seq<Entry>, size: u64)
    ensures
        0 <= insert_pos(s, size) <= s.len(),
        forall|j: int| 0 <= j < insert_pos(s, size) ==> (#[trigger] s[j]).size >= size,
        insert_pos(s, size) < s.len() ==> s[insert_pos(s, size)].size < size,
    decreases s.len(),
{
    if s.len() == 0 || s[0].size < size {
    } else {
        let rest = s.drop_first();
        lemma_insert_pos(rest, size);
        let p = insert_pos(rest, size);
        assert forall|j: int| 0 <= j < p + 1 implies (#[trigger] s[j]).size >= size by {
            if j > 0 {
                assert(s[j] == rest[j - 1]);
            }
        }
        if p < rest.len() {
            assert(s[p + 1] == rest[p]);
        }
    }
}

/// Sorting keeps the number of entries.
pub proof fn lemma_sorted_len(s: Seq<Entry>)
    ensures
        sorted_desc(s).len() == s.len(),
    decreases s.len(),
{
    if s.len() > 0 {
        let front = sorted_desc(s.drop_last());
        lemma_sorted_len(s.drop_last());
        lemma_insert_pos(front, s.last().size);
    }
}

/// Sorting yields sizes that never increase.
pub proof fn lemma_sorted_non_increasing(s: Seq<Entry>)
    ensures
        non_increasing(sorted_desc(s)),
    decreases s.len(),
{
    if s.len() > 0 {
        let front = sorted_desc(s.drop_last());
        let x = s.last();
        lemma_sorted_non_increasing(s.drop_last());
        lemma_insert_pos(front, x.size);
        let q = insert_pos(front, x.size);
        let out = front.insert(q, x);
        assert forall|i: int, j: int| 0 <= i <= j < out.len() implies out[i].size
            >= out[j].size by {
            if i < q {
                assert(out[i] == front[i]);
                if j > q {
                    assert(out[j] == front[j - 1]);
                }
            } else if i == q {
                if j > q {
                    assert(out[j] == front[j - 1]);
                    assert(front[q].size >= front[j - 1].size);
                }
            } else {
                assert(out[i] == front[i - 1]);
                assert(out[j] == front[j - 1]);
            }
        }
    }
}

/// Sorting neither drops nor duplicates an entry: the output holds exactly
/// the entries of the input, each as often as the input does.
pub proof fn lemma_sorted_permutation(s: Seq<Entry>)
    ensures
        sorted_desc(s).to_multiset() == s.to_multiset(),
    decreases s.len(),
{
    broadcast use vstd::seq_lib::group_to_multiset_ensures;

    if s.len() > 0 {
        let front = sorted_desc(s.drop_last());
        let x = s.last();
        lemma_sorted_permutation(s.drop_last());
        lemma_insert_pos(front, x.size);
        vstd::seq_lib::to_multiset_insert(front, insert_pos(front, x.size), x);
        assert(s.drop_last().push(x) =~= s);
        assert(s.drop_last().push(x).to_multiset() == s.drop_last().to_multiset().insert(x));
    }
}

/// No entry of `s` has the given size, so none is picked out.
proof fn lemma_of_size_none(s: Seq<Entry>, size: u64)
    requires
        forall|i: int| 0 <= i < s.len() ==> (#[trigger] s[i]).size != size,
    ensures
        of_size(s, size).len() == 0,
    decreases s.len(),
{
    reveal(Seq::filter);
    if s.len() > 0 {
        let init = s.drop_last();
        assert forall|i: int| 0 <= i < init.len() implies (#[trigger] init[i]).size != size by {
            assert(init[i] == s[i]);
        }
        lemma_of_size_none(init, size);
        assert(s.last() == s[s.len() - 1]);
    }
}

/// Sorting is stable: the entries of any one size come out in the order in
/// which they went in.
pub proof fn lemma_sorted_stable(s: Seq<Entry>, size: u64)
    ensures
        of_size(sorted_desc(s), size) == of_size(s, size),
    decreases s.len(),
{
    let pred = |e: Entry| e.size == size;
    if s.len() > 0 {
        let init = s.drop_last();
        let x = s.last();
        let front = sorted_desc(init);
        lemma_sorted_stable(init, size);
        lemma_sorted_non_increasing(init);
        lemma_insert_pos(front, x.size);
        let q = insert_pos(front, x.size);
        let head = front.take(q);
        let tail = front.skip(q);
        assert(front =~= head + tail);
        assert(sorted_desc(s) =~= head.push(x) + tail);
        assert(s =~= init.push(x));
        Seq::filter_distributes_over_add(head, tail, pred);
        Seq::filter_distributes_over_add(head.push(x), tail, pred);
        head.lemma_filter_push(x, pred);
        init.lemma_filter_push(x, pred);
        if x.size == size {
            assert forall|i: int| 0 <= i < tail.len() implies (#[trigger] tail[i]).size != size by {
                assert(tail[i] == front[q + i]);
                assert(front[q].size >= front[q + i].size);
            }
            lemma_of_size_none(tail, size);
            assert(of_size(tail, size) =~= Seq::<Entry>::empty());
            assert(of_size(head, size) + of_size(tail, size) =~= of_size(head, size));
            assert(of_size(head, size).push(x) + of_size(tail, size) =~= of_size(head, size).push(
                x,
            ));
        }
    }
}

/// Picking out one size from a sequence goes by its last entry: the entry is
/// appended to what the rest gives if it has that size, and left out if not.
proof fn lemma_of_size_step(s: Seq<Entry>, size: u64)
    requires
        s.len() > 0,
    ensures
        of_size(s, size) == if s.last().size == size {
            of_size(s.drop_last(), size).push(s.last())
        } else {
            of_size(s.drop_last(), size)
        },
{
    reveal(Seq::filter);
}

/// Where some entry is picked out for a size, the sequence holds an entry of
/// that size.
proof fn lemma_of_size_some(s: Seq<Entry>, size: u64)
    requires
        of_size(s, size).len() > 0,
    ensures
        exists|i: int| 0 <= i < s.len() && (#[trigger] s[i]).size == size,
{
    if forall|i: int| 0 <= i < s.len() ==> (#[trigger] s[i]).size != size {
        lemma_of_size_none(s, size);
    }
}

/// Two sequences ordered by size without increase that agree, size by size,
/// on which entries they hold and in what order, are the same sequence.
pub proof fn lemma_stable_order_unique(a: Seq<Entry>, b: Seq<Entry>)
    requires
        non_increasing(a),
        non_increasing(b),
        forall|size: u64| of_size(a, size) == of_size(b, size),
    ensures
        a == b,
    decreases a.len(),
{
    if a.len() == 0 {
        if b.len() > 0 {
            lemma_of_size_step(b, b.last().size);
            lemma_of_size_none(a, b.last().size);
            assert(of_size(a, b.last().size) == of_size(b, b.last().size));
        }
        assert(a =~= b);
    } else {
        let v = a.last().size;
        let a0 = a.drop_last();
        lemma_of_size_step(a, v);
        assert(of_size(a, v) == of_size(b, v));
        if b.len() == 0 {
            lemma_of_size_none(b, v);
        }
        let b0 = b.drop_last();
        let w = b.last().size;
        lemma_of_size_some(b, v);
        let i = choose|i: int| 0 <= i < b.len() && (#[trigger] b[i]).size == v;
        assert(b[i].size >= b[b.len() - 1].size);
        lemma_of_size_step(b, w);
        assert(of_size(a, w) == of_size(b, w));
        lemma_of_size_some(a, w);
        let j = choose|j: int| 0 <= j < a.len() && (#[trigger] a[j]).size == w;
        assert(a[j].size >= a[a.len() - 1].size);
        assert(v == w);
        assert(a.last() == b.last()) by {
            assert(of_size(a0, v).push(a.last()).last() == a.last());
            assert(of_size(b0, v).push(b.last()).last() == b.last());
        }
        assert forall|size: u64| of_size(a0, size) == of_size(b0, size) by {
            lemma_of_size_step(a, size);
            lemma_of_size_step(b, size);
            assert(of_size(a, size) == of_size(b, size));
            if size == v {
                assert(of_size(a0, size).push(a.last()).drop_last() =~= of_size(a0, size));
                assert(of_size(b0, size).push(b.last()).drop_last() =~= of_size(b0, size));
            }
        }
        assert(non_increasing(a0)) by {
            assert forall|i: int, j: int| 0 <= i <= j < a0.len() implies a0[i].size
                >= a0[j].size by {
                assert(a0[i] == a[i] && a0[j] == a[j]);
            }
        }
        assert(non_increasing(b0)) by {
            assert forall|i: int, j: int| 0 <= i <= j < b0.len() implies b0[i].size
                >= b0[j].size by {
                assert(b0[i] == b[i] && b0[j] == b[j]);
            }
        }
        lemma_stable_order_unique(a0, b0);
        assert(a =~= a0.push(a.last()));
        assert(b =~= b0.push(b.last()));
    }
}

/// The sorted sequence is the only one that is ordered by size without
/// increase and keeps, for every size, the entries of that size in their
/// input order.
pub proof fn lemma_sorted_is_the_stable_order(s: Seq<Entry>, r: Seq<Entry>)
    requires
        non_increasing(r),
        forall|size: u64| of_size(r, size) == of_size(s, size),
    ensures
        r == sorted_desc(s),
{
    lemma_sorted_non_increasing(s);
    assert forall|size: u64| of_size(r, size) == of_size(sorted_desc(s), size) by {
        lemma_sorted_stable(s, size);
    }
    lemma_stable_order_unique(r, sorted_desc(s));
}

/// Ranking with a limit equal to the number of entries returns all of them,
/// ordered by size without increase, as a permutation of the input.
pub proof fn lemma_rank_all_is_sorted_permutation(s: Seq<Entry>)
    ensures
        ranked(s, s.len()) == sorted_desc(s),
        non_increasing(ranked(s, s.len())),
        ranked(s, s.len()).to_multiset() == s.to_multiset(),
{
    lemma_sorted_len(s);
    lemma_sorted_non_increasing(s);
    lemma_sorted_permutation(s);
    assert(sorted_desc(s).take(s.len() as int) =~= sorted_desc(s));
}

/// Ranking returns as many entries as the limit allows and the input has.
pub proof fn lemma_ranked_len(s: Seq<Entry>, limit: nat)
    ensures
        ranked(s, limit).len() == if limit <= s.len() { limit } else { s.len() },
{
    lemma_sorted_len(s);
}

/// Whatever the limit, the ranked entries come largest first, each of them is
/// an entry of the input, and none left out is larger than one kept.
pub proof fn lemma_ranked_is_top(s: Seq<Entry>, limit: nat)
    ensures
        non_increasing(ranked(s, limit)),
        ranked(s, limit).to_multiset().subset_of(s.to_multiset()),
        forall|i: int, j: int|
            0 <= i < ranked(s, limit).len() && ranked(s, limit).len() <= j < s.len()
                ==> ranked(s, limit)[i].size >= sorted_desc(s)[j].size,
{
    broadcast use vstd::seq_lib::group_to_multiset_ensures;

    lemma_sorted_len(s);
    lemma_sorted_non_increasing(s);
    lemma_sorted_permutation(s);
    let all = sorted_desc(s);
    let top = ranked(s, limit);
    assert forall|e: Entry| top.to_multiset().count(e) <= s.to_multiset().count(e) by {
        let k = top.len() as int;
        assert(all =~= top + all.skip(k));
        vstd::seq_lib::lemma_multiset_commutative(top, all.skip(k));
    }
}

/// An input that is already ordered by size without increase is returned as
/// it stands: ties are never reordered.
pub proof fn lemma_sorted_input_unchanged(s: Seq<Entry>)
    requires
        non_increasing(s),
    ensures
        sorted_desc(s) == s,
    decreases s.len(),
{
    if s.len() > 0 {
        let init = s.drop_last();
        assert(non_increasing(init)) by {
            assert forall|i: int, j: int| 0 <= i <= j < init.len() implies init[i].size
                >= init[j].size by {
                assert(init[i] == s[i] && init[j] == s[j]);
            }
        }
        lemma_sorted_input_unchanged(init);
        lemma_insert_pos(init, s.last().size);
        let q = insert_pos(init, s.last().size);
        if q < init.len() {
            assert(init[q] == s[q]);
            assert(s[q].size >= s[s.len() - 1].size);
        }
        assert(init.insert(q, s.last()) =~= s);
    }
}

/// Returns the `limit` largest entries, largest first; entries of equal size
/// keep their relative input order. The input is left untouched.
pub fn rank(entries: &Vec<Entry>, limit: usize) -> (top: Vec<Entry>)
    ensures
        top@ == ranked(entries@, limit as nat),
        top@.len() == if limit <= entries@.len() {
            limit as nat
        } else {
            entries@.len()
        },
        non_increasing(top@),
        top@.to_multiset().subset_of(entries@.to_multiset()),
        limit >= entries@.len() ==> top@.to_multiset() == entries@.to_multiset(),
{
    let mut top: Vec<Entry> = Vec::new();
    let mut i: usize = 0;
    proof {
        assert(entries@.take(0) =~= Seq::<Entry>::empty());
        assert(sorted_desc(entries@.take(0)).take(0) =~= top@);
    }
    while i < entries.len()
        invariant
            i <= entries.len(),
            top@ == ranked(entries@.take(i as int), limit as nat),
        decreases entries.len() - i,
    {
        let e = &entries[i];
        let mut p: usize = 0;
        while p < top.len() && top[p].size >= e.size
            invariant
                p <= top.len(),
                forall|j: int| 0 <= j < p ==> (#[trigger] top@[j]).size >= e.size,
            decreases top.len() - p,
        {
            p += 1;
        }
        proof {
            let seen = entries@.take(i as int);
            let next = entries@.take(i + 1);
            let front = sorted_desc(seen);
            assert(next.drop_last() =~= seen);
            assert(next.last() == *e);
            lemma_sorted_len(seen);
            lemma_sorted_len(next);
            lemma_insert_pos(front, e.size);
            let q = insert_pos(front, e.size);
            assert(sorted_desc(next) == front.insert(q, *e));
            if p < top.len() {
                assert(top@[p as int] == front[p as int]);
                assert(q == p) by {
                    if q < p {
                        assert(top@[q] == front[q]);
                    } else if p < q {
                        assert(front[p as int].size >= e.size);
                    }
                }
            } else {
                assert(q >= p) by {
                    if q < p {
                        assert(top@[q] == front[q]);
                    }
                }
            }
        }
        if p < limit {
            top.insert(p, e.clone());
            top.truncate(limit);
        }
        i += 1;
        proof {
            assert(top@ =~= ranked(entries@.take(i as int), limit as nat));
        }
    }
    proof {
        assert(entries@.take(i as int) =~= entries@);
        lemma_ranked_len(entries@, limit as nat);
        lemma_ranked_is_top(entries@, limit as nat);
        lemma_rank_all_is_sorted_permutation(entries@);
    }
    top
}

} // verus!
