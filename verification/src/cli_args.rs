//! The settings of a run, and the preparation of the paths to share.

use crate::path::{
    lemma_precedes_irreflexive, lemma_precedes_total, lemma_precedes_transitive, path_precedes,
    precedes,
};
use crate::text::texts;
use vstd::prelude::*;

verus! {

/// The settings of a run.
#[derive(Debug)]
pub struct Args {
    /// Directories and files that will be distributed (only in transmitter mode)
    pub paths: Vec<String>,
    /// Port number
    pub port: u16,
    /// The application mode in which clients upload files to the server
    pub receive: bool,
    /// The path where to save the received files (only in receiver mode)
    pub received_files_path: Option<String>,
    /// Maximum total size of received files per request in MiB
    pub max_total_received_files_size: usize,
}

/// The paths that could be resolved, in order.
pub open spec fn resolved_texts(resolved: Seq<Option<String>>) -> Seq<Seq<char>>
    decreases resolved.len(),
{
    if resolved.len() == 0 {
        Seq::empty()
    } else {
        match resolved.last() {
            Some(path) => resolved_texts(resolved.drop_last()).push(path@),
            None => resolved_texts(resolved.drop_last()),
        }
    }
}

/// Each path comes before the next one in the order of paths, so that
/// none occurs twice.
pub open spec fn strictly_sorted(paths: Seq<Seq<char>>) -> bool {
    forall|i: int, j: int| 0 <= i < j < paths.len() ==> precedes(paths[i], paths[j])
}

/// Puts `path` at its place in the sorted list, unless it is there already.
fn insert_sorted(sorted: &mut Vec<String>, path: String)
    requires
        strictly_sorted(texts(old(sorted)@)),
    ensures
        strictly_sorted(texts(final(sorted)@)),
        forall|q: Seq<char>|
            texts(final(sorted)@).contains(q) <==> texts(old(sorted)@).contains(q) || q == path@,
{
    let ghost before = texts(sorted@);
    let n = sorted.len();
    let mut i: usize = 0;
    while i < n && path_precedes(sorted[i].as_str(), path.as_str())
        invariant
            i <= n,
            n == sorted.len(),
            before == texts(sorted@),
            forall|k: int| 0 <= k < i ==> precedes(#[trigger] before[k], path@),
        decreases n - i,
    {
        i += 1;
    }
    if i < n && sorted[i] == path {
        proof {
            assert(before[i as int] == path@);
        }
    } else {
        proof {
            assert forall|k: int| i <= k < n implies precedes(path@, #[trigger] before[k]) by {
                lemma_precedes_total(path@, before[i as int]);
                if k > i {
                    lemma_precedes_transitive(path@, before[i as int], before[k]);
                }
            }
        }
        sorted.insert(i, path);
        proof {
            let after = texts(sorted@);
            assert(after =~= before.insert(i as int, path@));
            assert forall|q: Seq<char>| after.contains(q) <==> before.contains(q) || q
                == path@ by {
                if before.contains(q) {
                    let k = choose|k: int| 0 <= k < before.len() && before[k] == q;
                    if k < i {
                        assert(after[k] == q);
                    } else {
                        assert(after[k + 1] == q);
                    }
                }
                if q == path@ {
                    assert(after[i as int] == q);
                }
            }
        }
    }
}

/// The paths of `list` in the order of paths, each once.
fn sorted_unique(list: &Vec<String>) -> (sorted: Vec<String>)
    ensures
        strictly_sorted(texts(sorted@)),
        forall|q: Seq<char>| texts(sorted@).contains(q) <==> texts(list@).contains(q),
{
    let mut sorted: Vec<String> = Vec::new();
    let n = list.len();
    let mut i: usize = 0;
    while i < n
        invariant
            i <= n,
            n == list.len(),
            strictly_sorted(texts(sorted@)),
            forall|q: Seq<char>|
                texts(sorted@).contains(q) <==> texts(list@).take(i as int).contains(q),
        decreases n - i,
    {
        insert_sorted(&mut sorted, list[i].clone());
        proof {
            let upto = texts(list@).take(i as int + 1);
            assert forall|q: Seq<char>| texts(sorted@).contains(q) <==> upto.contains(q) by {
                if q == list@[i as int]@ {
                    assert(upto[i as int] == q);
                }
            }
        }
        i += 1;
    }
    proof {
        assert(texts(list@).take(n as int) =~= texts(list@));
    }
    sorted
}

impl Args {
    /// Replaces the paths to share by their resolved forms, in the order of
    /// paths and each once. `resolved` holds for each path its absolute form
    /// free of links, or `None` where the path could not be resolved; such a
    /// path is dropped.
    pub fn prepare_paths(&mut self, resolved: Vec<Option<String>>)
        ensures
            strictly_sorted(texts(final(self).paths@)),
            forall|q: Seq<char>|
                texts(final(self).paths@).contains(q) <==> resolved_texts(resolved@).contains(q),
            final(self).port == old(self).port,
            final(self).receive == old(self).receive,
            final(self).received_files_path == old(self).received_files_path,
            final(self).max_total_received_files_size == old(self).max_total_received_files_size,
    {
        let mut kept: Vec<String> = Vec::new();
        let n = resolved.len();
        let mut i: usize = 0;
        while i < n
            invariant
                i <= n,
                n == resolved.len(),
                texts(kept@) == resolved_texts(resolved@.take(i as int)),
            decreases n - i,
        {
            proof {
                assert(resolved@.take(i as int + 1).drop_last() =~= resolved@.take(i as int));
            }
            match &resolved[i] {
                Some(path) => {
                    kept.push(path.clone());
                },
                None => {},
            }
            i += 1;
        }
        proof {
            assert(resolved@.take(n as int) =~= resolved@);
        }
        self.paths = kept;
        self.remove_repeated_paths();
    }

    /// Puts the paths in the order of paths and keeps each once.
    pub fn remove_repeated_paths(&mut self)
        ensures
            strictly_sorted(texts(final(self).paths@)),
            forall|q: Seq<char>|
                texts(final(self).paths@).contains(q) <==> texts(old(self).paths@).contains(q),
            final(self).port == old(self).port,
            final(self).receive == old(self).receive,
            final(self).received_files_path == old(self).received_files_path,
            final(self).max_total_received_files_size == old(self).max_total_received_files_size,
    {
        let sorted = sorted_unique(&self.paths);
        self.paths = sorted;
    }
}

/// A list in the order of paths holds no path twice.
pub proof fn lemma_sorted_has_no_duplicates(paths: Seq<Seq<char>>, i: int, j: int)
    requires
        strictly_sorted(paths),
        0 <= i < paths.len(),
        0 <= j < paths.len(),
        paths[i] == paths[j],
    ensures
        i == j,
{
    if i < j {
        lemma_precedes_irreflexive(paths[i]);
    } else if j < i {
        lemma_precedes_irreflexive(paths[j]);
    }
}

} // verus!
