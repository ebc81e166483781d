//! What a scan finds, the snapshot that this gives, and the proof that a
//! walk which is told what the scan finds makes that snapshot.

use crate::fs_object::{forest_wf, FileType, Metadata, Node};
use crate::storage::{
    advance, closed_node, finish_one, leaf, lemma_advance_wf, levels_wf, start, LevelView,
    WalkView,
};
use vstd::prelude::*;

verus! {

/// What a scan finds at a path.
pub struct Found {
    pub path: Seq<char>,
    /// The metadata, if they can be had: those of the link for a symbolic
    /// link.
    pub metadata: Option<Metadata>,
    /// For a directory: what the scan finds at each of its entries, if they
    /// can be listed.
    pub entries: Option<Seq<Found>>,
}

/// What a walk is told.
pub enum Answer {
    Metadata(Option<Metadata>),
    Entries(Option<Seq<Seq<char>>>),
}

/// The paths at which these things were found.
pub open spec fn paths_of(found: Seq<Found>) -> Seq<Seq<char>> {
    Seq::new(found.len(), |i: int| found[i].path)
}

/// The node that the snapshot holds for a path. There is none where the
/// metadata cannot be had, and none for a directory that cannot be listed.
/// Only what is below a directory is looked at, so a symbolic link is a
/// leaf whatever it points to. A directory none of whose entries gives a
/// node is recorded without entries.
pub open spec fn snapshot(found: Found) -> Option<Node>
    decreases found,
{
    match found.metadata {
        None => None,
        Some(metadata) => if metadata.file_type != FileType::Directory {
            Some(leaf(found.path, metadata))
        } else {
            match found.entries {
                None => None,
                Some(entries) => {
                    let below = snapshot_forest(entries);
                    Some(
                        Node {
                            path: found.path,
                            metadata,
                            content: if below.len() == 0 {
                                None
                            } else {
                                Some(below)
                            },
                        },
                    )
                },
            }
        },
    }
}

/// The nodes that the snapshot holds for a list of paths: one for each
/// path that gives one, in the order of the paths.
pub open spec fn snapshot_forest(found: Seq<Found>) -> Seq<Node>
    decreases found,
{
    if found.len() == 0 {
        Seq::empty()
    } else {
        let front = snapshot_forest(found.drop_last());
        match snapshot(found.last()) {
            Some(node) => front.push(node),
            None => front,
        }
    }
}

/// What a walk is told while it deals with one path.
pub open spec fn answers(found: Found) -> Seq<Answer>
    decreases found,
{
    match found.metadata {
        None => seq![Answer::Metadata(None)],
        Some(metadata) => if metadata.file_type != FileType::Directory {
            seq![Answer::Metadata(Some(metadata))]
        } else {
            match found.entries {
                None => seq![Answer::Metadata(Some(metadata)), Answer::Entries(None)],
                Some(entries) => seq![
                    Answer::Metadata(Some(metadata)),
                    Answer::Entries(Some(paths_of(entries))),
                ] + answers_forest(entries),
            }
        },
    }
}

/// What a walk is told while it deals with a list of paths.
pub open spec fn answers_forest(found: Seq<Found>) -> Seq<Answer>
    decreases found,
{
    if found.len() == 0 {
        Seq::empty()
    } else {
        answers(found.first()) + answers_forest(found.drop_first())
    }
}

/// The walk after it is told `answer`.
pub open spec fn told(walk: WalkView, answer: Answer) -> WalkView {
    match answer {
        Answer::Metadata(found) => walk.after_metadata(found),
        Answer::Entries(found) => walk.after_entries(found),
    }
}

/// The walk after it is told `answers`, one after the other.
pub open spec fn run(walk: WalkView, answers: Seq<Answer>) -> WalkView
    decreases answers.len(),
{
    if answers.len() == 0 {
        walk
    } else {
        run(told(walk, answers.first()), answers.drop_first())
    }
}

/// The levels once the top level has dealt with all its paths and these
/// have given `nodes`: a directory is closed, the list of roots is complete.
pub open spec fn exhaust(levels: Seq<LevelView>, nodes: Seq<Node>) -> Seq<LevelView> {
    let top = levels.last();
    let ended = LevelView {
        path: top.path,
        metadata: top.metadata,
        pending: Seq::empty(),
        done: top.done + nodes,
    };
    if levels.len() > 1 {
        advance(levels.drop_last(), Some(closed_node(ended)))
    } else {
        seq![ended]
    }
}

/// Telling a walk one answer.
pub proof fn lemma_run_one(walk: WalkView, answer: Answer)
    ensures
        run(walk, seq![answer]) == told(walk, answer),
{
    let one = seq![answer];
    assert(one.drop_first() =~= Seq::<Answer>::empty());
    assert(run(told(walk, answer), Seq::<Answer>::empty()) == told(walk, answer));
}

/// Telling a walk two runs of answers one after the other is telling it
/// their concatenation.
pub proof fn lemma_run_concat(walk: WalkView, first: Seq<Answer>, second: Seq<Answer>)
    ensures
        run(run(walk, first), second) == run(walk, first + second),
    decreases first.len(),
{
    if first.len() == 0 {
    } else {
        assert((first + second).drop_first() =~= first.drop_first() + second);
        lemma_run_concat(told(walk, first.first()), first.drop_first(), second);
    }
}

/// The snapshot of a list of paths is made of the snapshots of its parts.
pub proof fn lemma_snapshot_forest_concat(first: Seq<Found>, second: Seq<Found>)
    ensures
        snapshot_forest(first + second) == snapshot_forest(first) + snapshot_forest(second),
    decreases second.len(),
{
    if second.len() == 0 {
    } else {
        assert((first + second).drop_last() =~= first + second.drop_last());
        lemma_snapshot_forest_concat(first, second.drop_last());
    }
}

/// The snapshot of one path, as a list.
pub proof fn lemma_snapshot_forest_one(found: Found)
    ensures
        snapshot_forest(seq![found]) == match snapshot(found) {
            Some(node) => seq![node],
            None => Seq::<Node>::empty(),
        },
{
    assert(seq![found].drop_last() =~= Seq::<Found>::empty());
    assert(snapshot_forest(Seq::<Found>::empty()) =~= Seq::<Node>::empty());
}

/// The nodes of a snapshot have its shape: only a directory has entries,
/// and a list of entries is never empty.
pub proof fn lemma_snapshot_wf(found: Found)
    ensures
        snapshot(found) matches Some(node) ==> node.wf(),
    decreases found,
{
    match found.metadata {
        Some(metadata) => {
            if metadata.file_type == FileType::Directory {
                match found.entries {
                    Some(entries) => {
                        lemma_snapshot_forest_wf(entries);
                    },
                    None => {},
                }
            }
        },
        None => {},
    }
}

/// The nodes of a snapshot have its shape.
pub proof fn lemma_snapshot_forest_wf(found: Seq<Found>)
    ensures
        forest_wf(snapshot_forest(found)),
    decreases found,
{
    if found.len() > 0 {
        lemma_snapshot_forest_wf(found.drop_last());
        lemma_snapshot_wf(found.last());
    }
}

/// A symbolic link is a leaf of the snapshot, whatever is found below the
/// path it stands at.
pub proof fn lemma_symlink_is_leaf(found: Found)
    requires
        found.metadata matches Some(metadata) && metadata.file_type == FileType::Symlink,
    ensures
        snapshot(found) == Some(leaf(found.path, found.metadata->0)),
{
}

/// A path whose metadata cannot be had gives no node, and the snapshot of
/// the other paths is what it is without that path.
pub proof fn lemma_missing_path_is_skipped(found: Seq<Found>, i: int)
    requires
        0 <= i < found.len(),
        found[i].metadata is None,
    ensures
        snapshot(found[i]) is None,
        snapshot_forest(found) == snapshot_forest(found.remove(i)),
{
    let before = found.take(i);
    let after = found.skip(i + 1);
    assert(found =~= before + seq![found[i]] + after);
    lemma_snapshot_forest_one(found[i]);
    lemma_snapshot_forest_concat(before, seq![found[i]]);
    lemma_snapshot_forest_concat(before + seq![found[i]], after);
    lemma_snapshot_forest_concat(before, after);
}

/// A walk that is told what the scan finds at the path in hand ends where
/// it would be had the path given its node of the snapshot at once.
pub proof fn lemma_walk_node(walk: WalkView, found: Found)
    requires
        walk.wf(),
        walk.listing is None,
        walk.levels.last().pending.len() > 0,
        walk.levels.last().pending[0] == found.path,
    ensures
        run(walk, answers(found)) == (WalkView {
            levels: advance(walk.levels, snapshot(found)),
            listing: None,
        }),
    decreases found, 0nat,
{
    let levels = walk.levels;
    match found.metadata {
        None => {
            lemma_run_one(walk, Answer::Metadata(None));
        },
        Some(metadata) => {
            if metadata.file_type != FileType::Directory {
                lemma_run_one(walk, Answer::Metadata(Some(metadata)));
            } else {
                let asked = walk.after_metadata(Some(metadata));
                match found.entries {
                    None => {
                        let told_all = seq![
                            Answer::Metadata(Some(metadata)),
                            Answer::Entries(None),
                        ];
                        assert(told_all.drop_first().drop_first() =~= Seq::<Answer>::empty());
                        assert(run(walk, told_all) == told(asked, Answer::Entries(None))) by {
                            assert(run(asked, told_all.drop_first()) == run(
                                told(asked, Answer::Entries(None)),
                                Seq::<Answer>::empty(),
                            ));
                        }
                    },
                    Some(entries) => {
                        let head = seq![
                            Answer::Metadata(Some(metadata)),
                            Answer::Entries(Some(paths_of(entries))),
                        ];
                        let opened = asked.after_entries(Some(paths_of(entries)));
                        assert(head.drop_first() =~= seq![
                            Answer::Entries(Some(paths_of(entries))),
                        ]);
                        assert(head.drop_first().drop_first() =~= Seq::<Answer>::empty());
                        assert(run(walk, head) == opened) by {
                            assert(run(asked, head.drop_first()) == run(
                                opened,
                                Seq::<Answer>::empty(),
                            ));
                        }
                        lemma_run_concat(walk, head, answers_forest(entries));
                        if entries.len() == 0 {
                        } else {
                            let level = LevelView {
                                path: found.path,
                                metadata,
                                pending: paths_of(entries),
                                done: Seq::empty(),
                            };
                            lemma_walk_forest(opened, entries);
                            assert(levels.push(level).drop_last() =~= levels);
                            assert(Seq::<Node>::empty() + snapshot_forest(entries)
                                =~= snapshot_forest(entries));
                        }
                    },
                }
            }
        },
    }
}

/// A walk that is told what the scan finds at the paths of its top level
/// ends with that level dealt with: the paths have given their nodes of
/// the snapshot.
pub proof fn lemma_walk_forest(walk: WalkView, found: Seq<Found>)
    requires
        walk.wf(),
        walk.listing is None,
        found.len() > 0,
        walk.levels.last().pending == paths_of(found),
    ensures
        run(walk, answers_forest(found)) == (WalkView {
            levels: exhaust(walk.levels, snapshot_forest(found)),
            listing: None,
        }),
    decreases found, 1nat,
{
    let levels = walk.levels;
    let top = levels.last();
    let head = found.first();
    let tail = found.drop_first();
    lemma_walk_node(walk, head);
    lemma_snapshot_wf(head);
    let next = WalkView { levels: advance(levels, snapshot(head)), listing: None };
    lemma_run_concat(walk, answers(head), answers_forest(tail));
    assert(found =~= seq![head] + tail);
    lemma_snapshot_forest_concat(seq![head], tail);
    lemma_snapshot_forest_one(head);
    let stepped = finish_one(levels, snapshot(head));
    assert(stepped.last().pending =~= paths_of(tail));
    if tail.len() == 0 {
        assert(stepped.last().done =~= top.done + snapshot_forest(found));
        assert(stepped.last().pending =~= Seq::<Seq<char>>::empty());
        if levels.len() == 1 {
            assert(stepped =~= seq![stepped.last()]);
        }
    } else {
        lemma_walk_forest(next, tail);
        assert(stepped.last().done + snapshot_forest(tail) =~= top.done + snapshot_forest(
            found,
        ));
        assert(stepped.drop_last() =~= levels.drop_last());
    }
}

/// A walk that starts with a list of paths and is told what the scan finds
/// ends with nothing left to ask for, and its root nodes are the snapshot
/// of these paths.
pub proof fn lemma_walk_makes_snapshot(found: Seq<Found>)
    ensures
        run(start(paths_of(found)), answers_forest(found)).roots() == snapshot_forest(found),
        run(start(paths_of(found)), answers_forest(found)).request() is Done,
{
    let walk = start(paths_of(found));
    if found.len() == 0 {
    } else {
        lemma_walk_forest(walk, found);
    }
}

} // verus!
