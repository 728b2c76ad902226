//! The roots of a scan: the paths given, each once, in the order given.

use vstd::prelude::*;
use crate::selection::{distinct, lemma_distinct_idempotent};

verus! {

/// The text of each path.
pub open spec fn texts(paths: Seq<String>) -> Seq<Seq<char>> {
    paths.map_values(|p: String| p@)
}

/// The paths named on the command line: the global root, if any, first.
pub open spec fn named_roots(root: Option<String>, extra: Seq<String>) -> Seq<Seq<char>> {
    match root {
        Some(r) => seq![r@] + texts(extra),
        None => texts(extra),
    }
}

/// Tells whether a path with the text of `path` is among `paths`.
pub fn contains_path(paths: &Vec<String>, path: &String) -> (found: bool)
    ensures
        found == texts(paths@).contains(path@),
{
    let mut i: usize = 0;
    while i < paths.len()
        invariant
            i <= paths.len(),
            forall|j: int| 0 <= j < i ==> texts(paths@)[j] != path@,
        decreases paths.len() - i,
    {
        if paths[i] == *path {
            assert(texts(paths@)[i as int] == path@);
            return true;
        }
        i += 1;
    }
    false
}

/// Gathers the roots to scan: the global root first, then the extra paths,
/// each path once. The result is empty exactly when no path was named.
pub fn collect_roots(root: Option<String>, extra: Vec<String>) -> (roots: Vec<String>)
    ensures
        texts(roots@) == distinct(named_roots(root, extra@)),
        roots@.len() == 0 <==> root.is_none() && extra@.len() == 0,
{
    let mut roots: Vec<String> = Vec::new();
    let ghost lead = named_roots(root, Seq::empty());
    proof {
        assert(texts(Seq::<String>::empty()) =~= Seq::<Seq<char>>::empty());
        assert(root.is_some() ==> lead =~= seq![root.unwrap()@]);
    }
    match &root {
        Some(r) => {
            roots.push(r.clone());
            proof {
                assert(texts(roots@) =~= lead);
                lemma_distinct_idempotent(lead);
            }
        },
        None => {
            proof {
                assert(texts(roots@) =~= lead);
            }
        },
    }
    let mut i: usize = 0;
    proof {
        assert(texts(extra@.take(0)) =~= Seq::<Seq<char>>::empty());
        assert(lead + texts(extra@.take(0)) =~= lead);
    }
    while i < extra.len()
        invariant
            i <= extra.len(),
            lead.len() <= 1,
            root.is_some() ==> lead.len() == 1,
            texts(roots@) == distinct(lead + texts(extra@.take(i as int))),
            roots@.len() == 0 <==> lead.len() == 0 && i == 0,
        decreases extra.len() - i,
    {
        let p = &extra[i];
        proof {
            let seen = lead + texts(extra@.take(i as int));
            let more = lead + texts(extra@.take(i + 1));
            assert(more.drop_last() =~= seen);
            assert(more.last() == p@);
            assert(texts(roots@.push(*p)) =~= texts(roots@).push(p@));
        }
        if !contains_path(&roots, p) {
            roots.push(p.clone());
        }
        i += 1;
    }
    proof {
        assert(extra@.take(i as int) =~= extra@);
        assert(named_roots(root, extra@) =~= lead + texts(extra@));
    }
    roots
}

/// Falls back to the working directory when no root was named.
pub fn roots_or_working_dir(roots: Vec<String>, working_dir: String) -> (scan: Vec<String>)
    ensures
        scan@ == if roots@.len() == 0 {
            seq![working_dir]
        } else {
            roots@
        },
{
    if roots.len() == 0 {
        let mut scan: Vec<String> = Vec::new();
        scan.push(working_dir);
        proof {
            assert(scan@ =~= seq![working_dir]);
        }
        scan
    } else {
        roots
    }
}

} // verus!
