//! Selections: indices into a list of candidates, with set semantics.

use vstd::prelude::*;

verus! {

/// `s` with every repeated item removed; the first occurrence of each item
/// stays, in its place.
pub open spec fn distinct<A>(s: Seq<A>) -> Seq<A>
    decreases s.len(),
{
    if s.len() == 0 {
        s
    } else {
        let init = distinct(s.drop_last());
        if init.contains(s.last()) {
            init
        } else {
            init.push(s.last())
        }
    }
}

/// Every index of `s` is below `count`.
pub open spec fn all_below(s: Seq<usize>, count: nat) -> bool {
    forall|i: int| 0 <= i < s.len() ==> (#[trigger] s[i]) < count
}

/// The indices `0, 1, .., count - 1`, in that order.
pub open spec fn every_index(count: nat) -> Seq<usize> {
    Seq::new(count, |i: int| i as usize)
}

/// Removing repeats leaves no item twice, keeps exactly the items that
/// occurred, and never lengthens the sequence.
pub proof fn lemma_distinct<A>(s: Seq<A>)
    ensures
        distinct(s).no_duplicates(),
        forall|x: A| distinct(s).contains(x) <==> s.contains(x),
        distinct(s).len() <= s.len(),
        s.len() > 0 ==> distinct(s).len() > 0,
    decreases s.len(),
{
    if s.len() > 0 {
        let init = s.drop_last();
        let d = distinct(init);
        lemma_distinct(init);
        let out = distinct(s);
        assert forall|x: A| out.contains(x) <==> s.contains(x) by {
            if out.contains(x) {
                let j = choose|j: int| 0 <= j < out.len() && out[j] == x;
                if j < d.len() {
                    assert(d[j] == x);
                    assert(d.contains(x));
                    assert(init.contains(x));
                    let k = choose|k: int| 0 <= k < init.len() && init[k] == x;
                    assert(s[k] == x);
                } else {
                    assert(s[s.len() - 1] == x);
                }
            }
            if s.contains(x) {
                let k = choose|k: int| 0 <= k < s.len() && s[k] == x;
                if k < init.len() {
                    assert(init[k] == x);
                    assert(init.contains(x));
                    assert(d.contains(x));
                    let j = choose|j: int| 0 <= j < d.len() && d[j] == x;
                    assert(out[j] == x);
                } else if d.contains(x) {
                } else {
                    assert(out[out.len() - 1] == x);
                }
            }
        }
        if !d.contains(s.last()) {
            assert forall|i: int, j: int|
                0 <= i < out.len() && 0 <= j < out.len() && i != j implies out[i] != out[j] by {
                if i < d.len() && j < d.len() {
                    assert(d[i] != d[j]);
                } else if i < d.len() {
                    assert(d[i] == out[i]);
                } else {
                    assert(d[j] == out[j]);
                }
            }
        }
    }
}

/// A sequence without repeats is left as it is.
pub proof fn lemma_distinct_idempotent<A>(s: Seq<A>)
    requires
        s.no_duplicates(),
    ensures
        distinct(s) == s,
    decreases s.len(),
{
    if s.len() > 0 {
        let init = s.drop_last();
        lemma_distinct_idempotent(init);
        if init.contains(s.last()) {
            let k = choose|k: int| 0 <= k < init.len() && init[k] == s.last();
            assert(s[k] == s[s.len() - 1]);
        }
        assert(init.push(s.last()) =~= s);
    }
}

/// Selects every candidate: the indices `0 .. count`.
pub fn select_all(count: usize) -> (all: Vec<usize>)
    ensures
        all@ == every_index(count as nat),
{
    let mut all: Vec<usize> = Vec::new();
    let mut i: usize = 0;
    while i < count
        invariant
            i <= count,
            all@ == every_index(i as nat),
        decreases count - i,
    {
        all.push(i);
        i += 1;
        proof {
            assert(all@ =~= every_index(i as nat));
        }
    }
    all
}

/// Finds the first picked index that is not below `count`, if there is one.
pub fn first_out_of_range(picked: &Vec<usize>, count: usize) -> (found: Option<usize>)
    ensures
        found.is_none() <==> all_below(picked@, count as nat),
        match found {
            Some(at) => at < picked@.len() && picked@[at as int] >= count && all_below(
                picked@.take(at as int),
                count as nat,
            ),
            None => true,
        },
{
    let mut i: usize = 0;
    while i < picked.len()
        invariant
            i <= picked.len(),
            all_below(picked@.take(i as int), count as nat),
        decreases picked.len() - i,
    {
        if picked[i] >= count {
            return Some(i);
        }
        proof {
            assert forall|j: int| 0 <= j < i + 1 implies (#[trigger] picked@.take(i + 1)[j])
                < count by {
                if j < i {
                    assert(picked@.take(i as int)[j] == picked@[j]);
                }
            }
        }
        i += 1;
    }
    proof {
        assert(picked@.take(i as int) =~= picked@);
    }
    None
}

/// Tells whether `item` occurs in `items`.
pub fn contains_index(items: &Vec<usize>, item: usize) -> (found: bool)
    ensures
        found == items@.contains(item),
{
    let mut i: usize = 0;
    while i < items.len()
        invariant
            i <= items.len(),
            forall|j: int| 0 <= j < i ==> items@[j] != item,
        decreases items.len() - i,
    {
        if items[i] == item {
            return true;
        }
        i += 1;
    }
    false
}

/// Drops repeated indices, keeping the first occurrence of each.
pub fn without_repeats(picked: &Vec<usize>) -> (unique: Vec<usize>)
    ensures
        unique@ == distinct(picked@),
{
    let mut unique: Vec<usize> = Vec::new();
    let mut i: usize = 0;
    proof {
        assert(picked@.take(0) =~= Seq::<usize>::empty());
    }
    while i < picked.len()
        invariant
            i <= picked.len(),
            unique@ == distinct(picked@.take(i as int)),
        decreases picked.len() - i,
    {
        proof {
            assert(picked@.take(i + 1).drop_last() =~= picked@.take(i as int));
        }
        if !contains_index(&unique, picked[i]) {
            unique.push(picked[i]);
        }
        i += 1;
    }
    proof {
        assert(picked@.take(i as int) =~= picked@);
    }
    unique
}

} // verus!
