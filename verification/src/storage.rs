//! Building the snapshot tree from what a scan of the file system finds.
//!
//! The scan itself is the caller's work. The walk asks for one thing at a
//! time, either the metadata of a path or the entries of a directory, and
//! takes the answer; an entry that cannot be inspected or listed is left
//! out, and the walk goes on.

use crate::fs_object::{forest_view, forest_wf, FileType, FsObject, FsObjects, Metadata, Node};
use crate::text::texts;
use std::sync::Arc;
use vstd::prelude::*;

verus! {

/// What the walk asks for next.
#[derive(Debug)]
pub enum Request {
    /// The metadata of this path: those of the link where the path is a
    /// symbolic link.
    Metadata(String),
    /// The paths of the entries of this directory.
    Entries(String),
    /// Nothing: every path has been dealt with.
    Done,
}

/// The value of a request.
pub enum RequestView {
    Metadata(Seq<char>),
    Entries(Seq<char>),
    Done,
}

impl View for Request {
    type V = RequestView;

    open spec fn view(&self) -> RequestView {
        match self {
            Request::Metadata(path) => RequestView::Metadata(path@),
            Request::Entries(path) => RequestView::Entries(path@),
            Request::Done => RequestView::Done,
        }
    }
}

/// A directory that is being walked, or, at the bottom, the list of roots.
pub struct Level {
    path: String,
    metadata: Metadata,
    entries: Vec<String>,
    next: usize,
    done: FsObjects,
}

/// The value of a level.
pub struct LevelView {
    /// The path of the directory.
    pub path: Seq<char>,
    /// The metadata of the directory.
    pub metadata: Metadata,
    /// The paths still to be dealt with; the first is the one in hand.
    pub pending: Seq<Seq<char>>,
    /// The nodes made so far, in the order of their paths.
    pub done: Seq<Node>,
}

/// A walk in progress.
pub struct Walk {
    levels: Vec<Level>,
    listing: Option<Metadata>,
}

/// The value of a walk.
pub struct WalkView {
    /// The list of roots, and above it the directories that are open, each
    /// one the path in hand of the level below it.
    pub levels: Seq<LevelView>,
    /// The metadata of the path in hand, where it is a directory whose
    /// entries have been asked for.
    pub listing: Option<Metadata>,
}

/// The node of a directory that has been walked to its end. Where none of
/// its entries gave a node, it is recorded without entries.
pub open spec fn closed_node(level: LevelView) -> Node {
    Node {
        path: level.path,
        metadata: level.metadata,
        content: if level.done.len() == 0 {
            None
        } else {
            Some(level.done)
        },
    }
}

/// A node without entries.
pub open spec fn leaf(path: Seq<char>, metadata: Metadata) -> Node {
    Node { path, metadata, content: None }
}

/// The levels once the path in hand of the top level is dealt with: it has
/// given `node`, or nothing.
pub open spec fn finish_one(levels: Seq<LevelView>, node: Option<Node>) -> Seq<LevelView> {
    let top = levels.last();
    levels.drop_last().push(
        LevelView {
            path: top.path,
            metadata: top.metadata,
            pending: top.pending.drop_first(),
            done: match node {
                Some(n) => top.done.push(n),
                None => top.done,
            },
        },
    )
}

/// The levels once the path in hand is dealt with and every directory that
/// this brings to its end is closed: the node of such a directory is what
/// its path gives to the level below.
pub open spec fn advance(levels: Seq<LevelView>, node: Option<Node>) -> Seq<LevelView>
    decreases levels.len(),
{
    let stepped = finish_one(levels, node);
    if levels.len() > 1 && stepped.last().pending.len() == 0 {
        advance(levels.drop_last(), Some(closed_node(stepped.last())))
    } else {
        stepped
    }
}

/// What holds of the levels of every walk, whether or not a directory at
/// the top has just come to its end: below the top each level has a path
/// in hand, each open directory is a directory, and the nodes made so far
/// have the shape of a snapshot.
pub open spec fn levels_wf(levels: Seq<LevelView>) -> bool {
    &&& levels.len() >= 1
    &&& forall|k: int| 0 <= k < levels.len() - 1 ==> (#[trigger] levels[k]).pending.len() > 0
    &&& forall|k: int|
        1 <= k < levels.len() ==> (#[trigger] levels[k]).metadata.file_type == FileType::Directory
    &&& forall|k: int| 0 <= k < levels.len() ==> forest_wf((#[trigger] levels[k]).done)
}

impl WalkView {
    /// What holds of every walk.
    pub open spec fn wf(self) -> bool {
        &&& levels_wf(self.levels)
        &&& self.levels.len() > 1 ==> self.levels.last().pending.len() > 0
        &&& self.listing matches Some(metadata) ==> self.levels.last().pending.len() > 0
            && metadata.file_type == FileType::Directory
    }

    /// The root nodes made so far.
    pub open spec fn roots(self) -> Seq<Node> {
        self.levels[0].done
    }

    /// What the walk asks for.
    pub open spec fn request(self) -> RequestView {
        if self.levels.last().pending.len() == 0 {
            RequestView::Done
        } else if self.listing is Some {
            RequestView::Entries(self.levels.last().pending[0])
        } else {
            RequestView::Metadata(self.levels.last().pending[0])
        }
    }

    /// The walk after it is told the metadata of the path in hand, or that
    /// there are none to be had. Without metadata the path gives no node. A
    /// directory has its entries asked for. Anything else gives a node
    /// without entries. A walk that has not asked for metadata stays as it is.
    pub open spec fn after_metadata(self, found: Option<Metadata>) -> WalkView {
        if !(self.request() is Metadata) {
            self
        } else {
            match found {
                None => WalkView { levels: advance(self.levels, None), listing: None },
                Some(metadata) => if metadata.file_type == FileType::Directory {
                    WalkView { levels: self.levels, listing: Some(metadata) }
                } else {
                    WalkView {
                        levels: advance(
                            self.levels,
                            Some(leaf(self.levels.last().pending[0], metadata)),
                        ),
                        listing: None,
                    }
                },
            }
        }
    }

    /// The walk after it is told the entries of the directory in hand, or
    /// that they cannot be listed. A directory that cannot be listed gives
    /// no node. One without entries gives a node without entries. Any other
    /// is opened: its entries are dealt with before anything else. A walk
    /// that has not asked for entries stays as it is.
    pub open spec fn after_entries(self, found: Option<Seq<Seq<char>>>) -> WalkView {
        if !(self.request() is Entries) {
            self
        } else {
            let path = self.levels.last().pending[0];
            let metadata = self.listing->0;
            match found {
                None => WalkView { levels: advance(self.levels, None), listing: None },
                Some(entries) => if entries.len() == 0 {
                    WalkView {
                        levels: advance(self.levels, Some(leaf(path, metadata))),
                        listing: None,
                    }
                } else {
                    WalkView {
                        levels: self.levels.push(
                            LevelView { path, metadata, pending: entries, done: Seq::empty() },
                        ),
                        listing: None,
                    }
                },
            }
        }
    }
}

/// The walk that has `paths` to deal with and nothing done.
pub open spec fn start(paths: Seq<Seq<char>>) -> WalkView {
    WalkView {
        levels: seq![
            LevelView {
                path: Seq::empty(),
                metadata: Metadata { file_type: FileType::Directory, len: 0 },
                pending: paths,
                done: Seq::empty(),
            },
        ],
        listing: None,
    }
}

impl Level {
    /// The position in hand lies within the entries.
    pub closed spec fn ok(&self) -> bool {
        self.next <= self.entries@.len()
    }
}

impl View for Level {
    type V = LevelView;

    closed spec fn view(&self) -> LevelView {
        LevelView {
            path: self.path@,
            metadata: self.metadata,
            pending: texts(self.entries@).skip(self.next as int),
            done: forest_view(self.done@),
        }
    }
}

/// The values of the levels of a walk.
pub closed spec fn levels_view(levels: Seq<Level>) -> Seq<LevelView> {
    Seq::new(levels.len(), |k: int| levels[k]@)
}

/// The position in hand of each level lies within its entries.
pub closed spec fn levels_ok(levels: Seq<Level>) -> bool {
    forall|k: int| 0 <= k < levels.len() ==> (#[trigger] levels[k]).ok()
}

impl View for Walk {
    type V = WalkView;

    closed spec fn view(&self) -> WalkView {
        WalkView { levels: levels_view(self.levels@), listing: self.listing }
    }
}

/// Dealing with the path in hand keeps the levels in shape, and leaves a
/// path in hand at the top of every directory that is still open.
pub proof fn lemma_advance_wf(levels: Seq<LevelView>, node: Option<Node>)
    requires
        levels_wf(levels),
        levels.last().pending.len() > 0,
        node matches Some(n) ==> n.wf(),
    ensures
        levels_wf(advance(levels, node)),
        advance(levels, node).len() > 1 ==> advance(levels, node).last().pending.len() > 0,
        advance(levels, node).len() <= levels.len(),
    decreases levels.len(),
{
    let stepped = finish_one(levels, node);
    assert forall|k: int| 0 <= k < stepped.len() - 1 implies stepped[k] == levels[k] by {}
    if levels.len() > 1 && stepped.last().pending.len() == 0 {
        let below = levels.drop_last();
        let closed = closed_node(stepped.last());
        assert(stepped.last().metadata.file_type == FileType::Directory);
        lemma_advance_wf(below, Some(closed));
    }
}

/// The value of a node that a path has given, if it has given one.
pub open spec fn given_view(node: Option<Arc<FsObject>>) -> Option<Node> {
    match node {
        Some(n) => Some(n@),
        None => None,
    }
}

/// Deals with the path in hand of the top level, which has given `node` or
/// nothing, and closes every directory that this brings to its end.
fn move_on(levels: &mut Vec<Level>, node: Option<Arc<FsObject>>)
    requires
        old(levels).len() >= 1,
        levels_ok(old(levels)@),
        forall|k: int|
            0 <= k < old(levels).len() ==> (#[trigger] levels_view(old(levels)@)[k]).pending.len()
                > 0,
    ensures
        levels_ok(final(levels)@),
        levels_view(final(levels)@) == advance(levels_view(old(levels)@), given_view(node)),
    decreases old(levels).len(),
{
    let ghost before = levels_view(levels@);
    let mut top = levels.pop().unwrap();
    let ghost below = levels_view(levels@);
    let ghost had = top@;
    proof {
        assert(below =~= before.drop_last());
        assert(had == before.last());
        assert(top.next < top.entries.len());
    }
    top.next = top.next + 1;
    match node {
        Some(n) => {
            let ghost done = forest_view(top.done@);
            top.done.push(n);
            proof {
                assert(forest_view(top.done@) =~= done.push(n@));
            }
        },
        None => {},
    }
    proof {
        assert(top@.pending =~= had.pending.drop_first());
    }
    if levels.len() > 0 && top.next == top.entries.len() {
        let content = if top.done.len() == 0 {
            None
        } else {
            Some(top.done)
        };
        let closed = Arc::new(FsObject::new(top.path, top.metadata, content));
        proof {
            assert forall|k: int| 0 <= k < levels.len() implies (#[trigger] levels_view(
                levels@,
            )[k]).pending.len() > 0 by {}
        }
        move_on(levels, Some(closed));
    } else {
        levels.push(top);
        proof {
            assert forall|k: int| 0 <= k < levels.len() implies (#[trigger] levels@[k]).ok() by {}
        }
    }
}

/// Starts the walk that makes the snapshot of `paths`.
pub fn content_recursively(paths: Vec<String>) -> (walk: Walk)
    ensures
        walk.wf(),
        walk@ == start(texts(paths@)),
{
    let bottom = Level {
        path: String::new(),
        metadata: Metadata { file_type: FileType::Directory, len: 0 },
        entries: paths,
        next: 0,
        done: Vec::new(),
    };
    let mut levels: Vec<Level> = Vec::new();
    levels.push(bottom);
    let walk = Walk { levels, listing: None };
    proof {
        assert(texts(paths@).skip(0) =~= texts(paths@));
        assert(forest_view(bottom.done@) =~= Seq::<Node>::empty());
        assert(walk@.levels =~= start(texts(paths@)).levels);
    }
    walk
}

impl Walk {
    /// What holds of every walk that this module hands out.
    pub closed spec fn wf(&self) -> bool {
        levels_ok(self.levels@) && self@.wf()
    }

    /// The values of the walks that this module hands out are in shape.
    pub proof fn lemma_view_wf(&self)
        requires
            self.wf(),
        ensures
            self@.wf(),
    {
    }

    /// The path in hand, where there is one.
    fn in_hand(&self) -> (path: Option<String>)
        requires
            self.wf(),
        ensures
            match path {
                Some(p) => self@.levels.last().pending.len() > 0 && p@
                    == self@.levels.last().pending[0],
                None => self@.levels.last().pending.len() == 0,
            },
    {
        let top = &self.levels[self.levels.len() - 1];
        if top.next < top.entries.len() {
            Some(top.entries[top.next].clone())
        } else {
            None
        }
    }

    /// What the walk asks for next.
    pub fn request(&self) -> (request: Request)
        requires
            self.wf(),
        ensures
            request@ == self@.request(),
    {
        match self.in_hand() {
            None => Request::Done,
            Some(path) => if self.listing.is_some() {
                Request::Entries(path)
            } else {
                Request::Metadata(path)
            },
        }
    }

    /// Takes the metadata of the path in hand, or the news that there are
    /// none to be had.
    pub fn metadata(&mut self, found: Option<Metadata>)
        requires
            old(self).wf(),
        ensures
            final(self).wf(),
            final(self)@ == old(self)@.after_metadata(found),
    {
        if self.listing.is_some() {
            return ;
        }
        let path = match self.in_hand() {
            None => {
                return ;
            },
            Some(path) => path,
        };
        let ghost before = self@;
        proof {
            assert forall|k: int| 0 <= k < before.levels.len() implies (
            #[trigger] before.levels[k]).pending.len() > 0 by {}
        }
        match found {
            None => {
                proof {
                    lemma_advance_wf(before.levels, None);
                }
                move_on(&mut self.levels, None);
            },
            Some(metadata) => {
                if metadata.is_dir() {
                    self.listing = Some(metadata);
                } else {
                    let node = Arc::new(FsObject::new(path, metadata, None));
                    proof {
                        lemma_advance_wf(before.levels, Some(node@));
                    }
                    move_on(&mut self.levels, Some(node));
                }
            },
        }
    }

    /// Takes the paths of the entries of the directory in hand, or the
    /// news that they cannot be listed.
    pub fn entries(&mut self, found: Option<Vec<String>>)
        requires
            old(self).wf(),
        ensures
            final(self).wf(),
            final(self)@ == old(self)@.after_entries(
                match found {
                    Some(list) => Some(texts(list@)),
                    None => None,
                },
            ),
    {
        let metadata = match self.listing {
            None => {
                return ;
            },
            Some(metadata) => metadata,
        };
        let path = match self.in_hand() {
            None => {
                return ;
            },
            Some(path) => path,
        };
        let ghost before = self@;
        proof {
            assert forall|k: int| 0 <= k < before.levels.len() implies (
            #[trigger] before.levels[k]).pending.len() > 0 by {}
        }
        self.listing = None;
        match found {
            None => {
                proof {
                    lemma_advance_wf(before.levels, None);
                }
                move_on(&mut self.levels, None);
            },
            Some(list) => {
                if list.len() == 0 {
                    let node = Arc::new(FsObject::new(path, metadata, None));
                    proof {
                        lemma_advance_wf(before.levels, Some(node@));
                    }
                    move_on(&mut self.levels, Some(node));
                } else {
                    let opened = Level {
                        path,
                        metadata,
                        entries: list,
                        next: 0,
                        done: Vec::new(),
                    };
                    proof {
                        assert(texts(list@).skip(0) =~= texts(list@));
                        assert(forest_view(opened.done@) =~= Seq::<Node>::empty());
                    }
                    self.levels.push(opened);
                    proof {
                        assert(levels_view(self.levels@) =~= before.levels.push(opened@));
                        assert forall|k: int| 0 <= k < self.levels@.len() implies (
                        #[trigger] self.levels@[k]).ok() by {}
                        let after = levels_view(self.levels@);
                        assert forall|k: int| 0 <= k < after.len() - 1 implies (
                        #[trigger] after[k]).pending.len() > 0 by {}
                    }
                }
            },
        }
    }

    /// The root nodes made so far: the snapshot, once the walk asks for
    /// nothing more.
    pub fn into_forest(self) -> (forest: FsObjects)
        requires
            self.wf(),
        ensures
            forest_view(forest@) == self@.roots(),
            forest_wf(forest_view(forest@)),
    {
        let mut levels = self.levels;
        let ghost all = levels@;
        let mut i: usize = levels.len();
        while i > 1
            invariant
                1 <= i <= all.len(),
                levels@ == all.take(i as int),
            decreases i,
        {
            levels.pop();
            i -= 1;
        }
        let bottom = levels.pop().unwrap();
        bottom.done
    }
}

} // verus!
