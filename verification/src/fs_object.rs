//! The snapshot tree: one node per file system entry seen by a scan.

use crate::path::{file_name, file_name_of};
use crate::text::{decimal, decimal_string};
use std::collections::hash_map::DefaultHasher;
use std::hash::Hasher;
use std::sync::Arc;
use vstd::bytes::{spec_u64_to_le_bytes, u64_to_le_bytes};
use vstd::prelude::*;
use vstd::std_specs::hash::DefaultHasherAdditionalSpecFns;
use vstd::string::{StringExecFns, StringSliceAdditionalSpecFns};
use vstd::utf8::encode_utf8;

verus! {

/// What kind of entry a node stands for.
#[derive(Clone, Copy, Debug, PartialEq, Eq, Structural)]
pub enum FileType {
    File,
    Directory,
    Symlink,
}

/// What a scan records about an entry besides its path.
#[derive(Clone, Copy, Debug, PartialEq, Eq, Structural)]
pub struct Metadata {
    pub file_type: FileType,
    /// Size in bytes.
    pub len: u64,
}

pub type FsObjects = Vec<Arc<FsObject>>;

/// A file system entry as it was at scan time.
#[derive(Debug)]
pub struct FsObject {
    pub path: String,
    pub metadata: Metadata,
    /// The entries of a directory, absent where there are none.
    pub content: Option<FsObjects>,
}

/// The mathematical value of a node.
pub struct Node {
    pub path: Seq<char>,
    pub metadata: Metadata,
    pub content: Option<Seq<Node>>,
}

impl FsObject {
    /// The value of this node and of everything below it.
    pub open spec fn model(&self) -> Node
        decreases self,
    {
        Node {
            path: self.path@,
            metadata: self.metadata,
            content: match self.content {
                None => None,
                Some(items) => Some(forest_view(items@)),
            },
        }
    }
}

impl View for FsObject {
    type V = Node;

    open spec fn view(&self) -> Node {
        self.model()
    }
}

/// The values of a forest's roots, in order.
pub open spec fn forest_view(items: Seq<Arc<FsObject>>) -> Seq<Node>
    decreases items,
{
    Seq::new(
        items.len(),
        |i: int|
            if 0 <= i < items.len() {
                items[i].model()
            } else {
                arbitrary()
            },
    )
}

/// The values that a sequence of borrowed nodes refers to.
pub open spec fn refs_view(nodes: Seq<&FsObject>) -> Seq<Node> {
    Seq::new(nodes.len(), |i: int| nodes[i]@)
}

/// Every node below these roots keeps the shape a scan gives it: only a
/// directory has entries, and a recorded list of entries is never empty.
pub open spec fn forest_wf(items: Seq<Node>) -> bool
    decreases items,
{
    forall|i: int| 0 <= i < items.len() ==> (#[trigger] items[i]).wf()
}

/// Which nodes a traversal hands out.
#[derive(Clone, Copy, Debug, PartialEq, Eq, Structural)]
pub enum Pick {
    /// Every node.
    All,
    /// The files; nothing below a file is visited.
    Files,
    /// The directories.
    Directories,
    /// The symbolic links; nothing below a link is visited.
    Symlinks,
}

impl Pick {
    /// Whether a traversal of this kind hands out a node with this metadata.
    pub open spec fn yields(self, metadata: Metadata) -> bool {
        match self {
            Pick::All => true,
            Pick::Files => metadata.file_type == FileType::File,
            Pick::Directories => metadata.file_type == FileType::Directory,
            Pick::Symlinks => metadata.file_type == FileType::Symlink,
        }
    }

    /// Whether a traversal of this kind visits what such a node holds.
    pub open spec fn descends(self, metadata: Metadata) -> bool {
        match self {
            Pick::All => true,
            Pick::Files => metadata.file_type != FileType::File,
            Pick::Directories => true,
            Pick::Symlinks => metadata.file_type != FileType::Symlink,
        }
    }
}

/// What a traversal yields that still holds `stack`. It takes the node at
/// the end first, so the entries of a directory come out last to first.
pub open spec fn select_stack(pick: Pick, stack: Seq<Node>) -> Seq<Node>
    decreases stack,
{
    if stack.len() == 0 {
        Seq::empty()
    } else {
        stack.last().select(pick) + select_stack(pick, stack.drop_last())
    }
}

/// What the traversals of the roots yield, one root after the other.
pub open spec fn select_forest(pick: Pick, roots: Seq<Node>) -> Seq<Node>
    decreases roots.len(),
{
    if roots.len() == 0 {
        Seq::empty()
    } else {
        select_forest(pick, roots.drop_last()) + roots.last().select(pick)
    }
}

/// What a hasher is fed for the nodes of `items`, first to last.
pub open spec fn feed_all(items: Seq<Node>) -> Seq<Seq<u8>>
    decreases items,
{
    if items.len() == 0 {
        Seq::empty()
    } else {
        feed_all(items.drop_last()) + items.last().feed()
    }
}

impl Node {
    pub open spec fn wf(self) -> bool
        decreases self,
    {
        match self.content {
            None => true,
            Some(items) => self.metadata.file_type == FileType::Directory && items.len() > 0
                && forest_wf(items),
        }
    }

    /// What a traversal of kind `pick` yields from this node on: the node
    /// itself where it is of that kind, then what is below it.
    pub open spec fn select(self, pick: Pick) -> Seq<Node>
        decreases self,
    {
        let own = if pick.yields(self.metadata) {
            seq![self]
        } else {
            Seq::empty()
        };
        match self.content {
            Some(items) if pick.descends(self.metadata) => own + select_stack(pick, items),
            _ => own,
        }
    }

    /// The byte strings that a hasher is fed for this node: its path and an
    /// end mark, then either a mark that it has no entries, or a mark that it
    /// has, their number, and what each of them feeds.
    pub open spec fn feed(self) -> Seq<Seq<u8>>
        decreases self,
    {
        let own = seq![encode_utf8(self.path), seq![0xffu8]];
        match self.content {
            None => own + seq![seq![0u8]],
            Some(items) => own + seq![seq![1u8], spec_u64_to_le_bytes(items.len() as u64)]
                + feed_all(items),
        }
    }

    /// The identifier of this node: the hash of what it feeds.
    pub open spec fn identifier(self) -> u64 {
        DefaultHasher::spec_finish(self.feed())
    }
}

impl Metadata {
    pub fn is_file(&self) -> (b: bool)
        ensures
            b == (self.file_type == FileType::File),
    {
        self.file_type == FileType::File
    }

    pub fn is_dir(&self) -> (b: bool)
        ensures
            b == (self.file_type == FileType::Directory),
    {
        self.file_type == FileType::Directory
    }

    pub fn is_symlink(&self) -> (b: bool)
        ensures
            b == (self.file_type == FileType::Symlink),
    {
        self.file_type == FileType::Symlink
    }
}

impl Pick {
    /// Whether a traversal of this kind hands out a node with this metadata.
    pub fn takes(&self, metadata: &Metadata) -> (b: bool)
        ensures
            b == self.yields(*metadata),
    {
        match self {
            Pick::All => true,
            Pick::Files => metadata.is_file(),
            Pick::Directories => metadata.is_dir(),
            Pick::Symlinks => metadata.is_symlink(),
        }
    }

    /// Whether a traversal of this kind visits what such a node holds.
    pub fn enters(&self, metadata: &Metadata) -> (b: bool)
        ensures
            b == self.descends(*metadata),
    {
        match self {
            Pick::All => true,
            Pick::Files => !metadata.is_file(),
            Pick::Directories => true,
            Pick::Symlinks => !metadata.is_symlink(),
        }
    }
}

impl FsObject {
    pub fn new(path: String, metadata: Metadata, content: Option<FsObjects>) -> (node: Self)
        ensures
            node.path == path,
            node.metadata == metadata,
            node.content == content,
    {
        Self { path, metadata, content }
    }

    pub fn is_file(&self) -> (b: bool)
        ensures
            b == (self@.metadata.file_type == FileType::File),
    {
        self.metadata.is_file()
    }

    pub fn is_dir(&self) -> (b: bool)
        ensures
            b == (self@.metadata.file_type == FileType::Directory),
    {
        self.metadata.is_dir()
    }

    pub fn is_symlink(&self) -> (b: bool)
        ensures
            b == (self@.metadata.file_type == FileType::Symlink),
    {
        self.metadata.is_symlink()
    }

    /// The name of this entry: the last component of its path.
    pub fn name(&self) -> (name: &str)
        requires
            file_name_of(self@.path) is Some,
        ensures
            file_name_of(self@.path) == Some(name@),
    {
        file_name(self.path.as_str()).unwrap()
    }

    /// The size in whole kilobytes, as the listing shows it.
    pub fn size(&self) -> (text: String)
        ensures
            text@ == decimal((self@.metadata.len / 1000) as nat) + " kB"@,
    {
        let mut text = decimal_string(self.metadata.len / 1000);
        text.append(" kB");
        text
    }

    /// The nodes that a traversal of kind `pick` yields from here, in its order.
    pub fn collect(&self, pick: Pick) -> (out: Vec<&FsObject>)
        ensures
            refs_view(out@) == self@.select(pick),
    {
        let mut out: Vec<&FsObject> = Vec::new();
        let mut stack: Vec<&FsObject> = Vec::new();
        stack.push(self);
        proof {
            assert(refs_view(stack@) =~= seq![self@]);
            assert(seq![self@].drop_last() =~= Seq::<Node>::empty());
            assert(select_stack(pick, Seq::<Node>::empty()) =~= Seq::<Node>::empty());
        }
        while stack.len() > 0
            invariant
                refs_view(out@) + select_stack(pick, refs_view(stack@)) == self@.select(pick),
            decreases select_stack(Pick::All, refs_view(stack@)).len(),
        {
            let ghost before = refs_view(stack@);
            let ghost yielded = refs_view(out@);
            let current = stack.pop().unwrap();
            let ghost rest = refs_view(stack@);
            proof {
                assert(before.drop_last() =~= rest);
            }
            if pick.takes(&current.metadata) {
                out.push(current);
            }
            let ghost mut pushed: Seq<Node> = Seq::empty();
            match &current.content {
                Some(items) => {
                    if pick.enters(&current.metadata) {
                        let n = items.len();
                        let mut j: usize = 0;
                        while j < n
                            invariant
                                j <= n,
                                n == items.len(),
                                refs_view(stack@) == rest + forest_view(items@).take(j as int),
                            decreases n - j,
                        {
                            let child: &FsObject = &items[j];
                            let ghost prior = refs_view(stack@);
                            stack.push(child);
                            proof {
                                assert(refs_view(stack@) =~= prior.push(child@));
                            }
                            j += 1;
                        }
                        proof {
                            pushed = forest_view(items@);
                            assert(forest_view(items@).take(n as int) =~= pushed);
                        }
                    }
                },
                None => {},
            }
            proof {
                lemma_select_stack_concat(pick, rest, pushed);
                lemma_select_stack_concat(Pick::All, rest, pushed);
                assert(select_stack(Pick::All, before) =~= current@.select(Pick::All)
                    + select_stack(Pick::All, rest));
                assert(current@.select(pick) =~= (refs_view(out@).skip(yielded.len() as int))
                    + select_stack(pick, pushed));
                assert(refs_view(out@) + select_stack(pick, refs_view(stack@)) =~= yielded
                    + select_stack(pick, before));
            }
        }
        out
    }

    /// Feeds `state` what identifies this node.
    fn feed_into(&self, state: &mut DefaultHasher)
        ensures
            final(state)@ == old(state)@ + self@.feed(),
        decreases self,
    {
        state.write(self.path.as_str().as_bytes());
        let mut mark: Vec<u8> = Vec::new();
        match &self.content {
            None => {
                mark.push(0xffu8);
                state.write(mark.as_slice());
                mark.set(0, 0u8);
                assert(mark@ =~= seq![0u8]);
                state.write(mark.as_slice());
            },
            Some(items) => {
                mark.push(0xffu8);
                state.write(mark.as_slice());
                mark.set(0, 1u8);
                assert(mark@ =~= seq![1u8]);
                state.write(mark.as_slice());
                let n = items.len();
                state.write(u64_to_le_bytes(n as u64).as_slice());
                let ghost own = state@;
                let mut j: usize = 0;
                while j < n
                    invariant
                        j <= n,
                        n == items.len(),
                        self.content == Some(*items),
                        state@ == own + feed_all(forest_view(items@).take(j as int)),
                    decreases n - j,
                {
                    let child: &FsObject = &items[j];
                    proof {
                        assert(decreases_to!(self => self.content->0));
                    }
                    child.feed_into(state);
                    proof {
                        let upto = forest_view(items@).take(j as int + 1);
                        assert(upto.drop_last() =~= forest_view(items@).take(j as int));
                    }
                    j += 1;
                }
                proof {
                    assert(forest_view(items@).take(n as int) =~= forest_view(items@));
                }
            },
        }
    }

    /// The identifier of this node. It depends on the node's value alone:
    /// its path and, level by level, what it holds.
    pub fn get_hash(&self) -> (id: u64)
        ensures
            id == self@.identifier(),
    {
        let mut hasher = DefaultHasher::new();
        self.feed_into(&mut hasher);
        hasher.finish()
    }

    /// Every node of this subtree.
    pub fn recursive_iter(&self) -> (out: Vec<&FsObject>)
        ensures
            refs_view(out@) == self@.select(Pick::All),
    {
        self.collect(Pick::All)
    }

    /// The files of this subtree.
    pub fn file_iter(&self) -> (out: Vec<&FsObject>)
        ensures
            refs_view(out@) == self@.select(Pick::Files),
    {
        self.collect(Pick::Files)
    }

    /// The directories of this subtree.
    pub fn dir_iter(&self) -> (out: Vec<&FsObject>)
        ensures
            refs_view(out@) == self@.select(Pick::Directories),
    {
        self.collect(Pick::Directories)
    }

    /// The symbolic links of this subtree.
    pub fn symlink_iter(&self) -> (out: Vec<&FsObject>)
        ensures
            refs_view(out@) == self@.select(Pick::Symlinks),
    {
        self.collect(Pick::Symlinks)
    }
}

/// The nodes that traversals of kind `pick` yield, root after root.
pub fn collect_forest(fs_objects: &FsObjects, pick: Pick) -> (out: Vec<&FsObject>)
    ensures
        refs_view(out@) == select_forest(pick, forest_view(fs_objects@)),
{
    let mut out: Vec<&FsObject> = Vec::new();
    let n = fs_objects.len();
    let mut i: usize = 0;
    while i < n
        invariant
            i <= n,
            n == fs_objects.len(),
            refs_view(out@) == select_forest(pick, forest_view(fs_objects@).take(i as int)),
        decreases n - i,
    {
        let root: &FsObject = &fs_objects[i];
        let mut part = root.collect(pick);
        out.append(&mut part);
        proof {
            let upto = forest_view(fs_objects@).take(i as int + 1);
            assert(upto.drop_last() =~= forest_view(fs_objects@).take(i as int));
        }
        i += 1;
    }
    proof {
        assert(forest_view(fs_objects@).take(n as int) =~= forest_view(fs_objects@));
    }
    out
}

/// The text of a summary with these four counts.
pub open spec fn summary_text(elements: nat, files: nat, directories: nat, symlinks: nat) -> Seq<
    char,
> {
    "\nObtained:\t"@ + decimal(elements) + " elements, where:\n\t\t"@ + decimal(files)
        + " files\n\t\t"@ + decimal(directories) + " directories\n\t\t"@ + decimal(symlinks)
        + " symbolic links\n\n"@
}

/// The summary of a scan: how many nodes the forest has, and how many of
/// them are files, directories and symbolic links.
pub fn show_fs_objects_summary(fs_objects: &FsObjects) -> (text: String)
    ensures
        text@ == summary_text(
            select_forest(Pick::All, forest_view(fs_objects@)).len(),
            select_forest(Pick::Files, forest_view(fs_objects@)).len(),
            select_forest(Pick::Directories, forest_view(fs_objects@)).len(),
            select_forest(Pick::Symlinks, forest_view(fs_objects@)).len(),
        ),
{
    let total_elements = collect_forest(fs_objects, Pick::All).len();
    let total_files = collect_forest(fs_objects, Pick::Files).len();
    let total_directories = collect_forest(fs_objects, Pick::Directories).len();
    let total_symlinks = collect_forest(fs_objects, Pick::Symlinks).len();
    let mut text = String::from_str("\nObtained:\t");
    text.append(decimal_string(total_elements as u64).as_str());
    text.append(" elements, where:\n\t\t");
    text.append(decimal_string(total_files as u64).as_str());
    text.append(" files\n\t\t");
    text.append(decimal_string(total_directories as u64).as_str());
    text.append(" directories\n\t\t");
    text.append(decimal_string(total_symlinks as u64).as_str());
    text.append(" symbolic links\n\n");
    text
}

/// The identifier of a node depends on its value alone: two nodes with
/// the same path that hold the same, level by level, have the same
/// identifier, whenever and wherever they were made.
pub proof fn lemma_identifier_is_stable(first: FsObject, second: FsObject)
    requires
        first@ == second@,
    ensures
        first@.identifier() == second@.identifier(),
{
}

/// A traversal that is handed two stacks, one on top of the other, yields
/// what it yields for the upper one and then what it yields for the lower.
pub proof fn lemma_select_stack_concat(pick: Pick, lower: Seq<Node>, upper: Seq<Node>)
    ensures
        select_stack(pick, lower + upper) == select_stack(pick, upper) + select_stack(
            pick,
            lower,
        ),
    decreases upper.len(),
{
    if upper.len() == 0 {
    } else {
        assert((lower + upper).drop_last() =~= lower + upper.drop_last());
        lemma_select_stack_concat(pick, lower, upper.drop_last());
    }
}

} // verus!
