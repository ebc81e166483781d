//! The listing of a snapshot as nested HTML lists, and the index of its
//! files by identifier, which is filled while the listing is written.

use crate::fs_object::{
    forest_view, forest_wf, select_forest, select_stack, FileType, FsObject, FsObjects, Node, Pick,
};
use crate::path::{file_name, file_name_of};
use crate::text::{decimal, decimal_string};
use std::collections::HashMap;
use std::sync::Arc;
use vstd::prelude::*;
use vstd::string::StringExecFns;

verus! {

broadcast use vstd::std_specs::hash::group_hash_axioms;

/// The index of a snapshot: the file that each identifier names.
pub type Index = HashMap<u64, Arc<FsObject>>;

/// The values that an index holds.
pub open spec fn index_view(index: Map<u64, Arc<FsObject>>) -> Map<u64, Node> {
    Map::new(|id: u64| index.contains_key(id), |id: u64| index[id]@)
}

/// Whether every node at or below these roots has a name: its path ends in
/// a component other than `.` and `..`.
pub open spec fn forest_named(items: Seq<Node>) -> bool
    decreases items,
{
    forall|i: int| 0 <= i < items.len() ==> named(#[trigger] items[i])
}

/// Whether `node` and every node below it has a name.
pub open spec fn named(node: Node) -> bool
    decreases node,
{
    file_name_of(node.path) is Some && match node.content {
        None => true,
        Some(items) => forest_named(items),
    }
}

/// The files that the listing of `node` links to, in the order of the
/// listing. Only what a directory holds is listed below it.
pub open spec fn listed_files(node: Node) -> Seq<Node>
    decreases node,
{
    match node.metadata.file_type {
        FileType::File => seq![node],
        FileType::Symlink => Seq::empty(),
        FileType::Directory => match node.content {
            None => Seq::empty(),
            Some(items) => forest_listed_files(items),
        },
    }
}

/// The files that the listing of these roots links to, in its order.
pub open spec fn forest_listed_files(items: Seq<Node>) -> Seq<Node>
    decreases items,
{
    if items.len() == 0 {
        Seq::empty()
    } else {
        forest_listed_files(items.drop_last()) + listed_files(items.last())
    }
}

/// `index` after each of `files` was entered under its identifier, first
/// to last. Of two files with one identifier the later one stays.
pub open spec fn insert_all(index: Map<u64, Node>, files: Seq<Node>) -> Map<u64, Node>
    decreases files.len(),
{
    if files.len() == 0 {
        index
    } else {
        insert_all(index, files.drop_last()).insert(files.last().identifier(), files.last())
    }
}

/// `href` as a specification.
pub open spec fn href_text(text: Seq<char>, url: Seq<char>) -> Seq<char> {
    "<a href=\""@ + url + "\">"@ + text + "</a>"@
}

/// The address under which the file with identifier `hash` is downloaded.
pub open spec fn download_url(hash: u64) -> Seq<char> {
    "/dl?id="@ + decimal(hash as nat)
}

/// The address under which the file with identifier `hash` is previewed.
pub open spec fn preview_url(hash: u64) -> Seq<char> {
    "/pw?id="@ + decimal(hash as nat)
}

/// The size of a file as the listing shows it: whole kilobytes.
pub open spec fn size_text(len: u64) -> Seq<char> {
    decimal((len / 1000) as nat) + " kB"@
}

/// The list item of one node: a directory and a symbolic link are shown by
/// name; a file links to its download and to its preview.
pub open spec fn item_text(node: Node) -> Seq<char> {
    let name = file_name_of(node.path)->0;
    match node.metadata.file_type {
        FileType::Directory => "<li>📁 "@ + name + "</li>\n"@,
        FileType::Symlink => "<li>🔗 "@ + name + "</li>\n"@,
        FileType::File => "<li>🗋 "@ + href_text(name, download_url(node.identifier())) + ", "@
            + size_text(node.metadata.len) + " "@ + href_text(
            "[view]"@,
            preview_url(node.identifier()),
        ) + "</li>\n"@,
    }
}

/// What the listing holds for one node: its item and, for a directory with
/// entries, the nested list of these.
pub open spec fn entry_text(node: Node) -> Seq<char>
    decreases node,
{
    match node.content {
        Some(items) if node.metadata.file_type == FileType::Directory => item_text(node)
            + "<ul>\n"@ + items_text(items) + "</ul>\n"@,
        _ => item_text(node),
    }
}

/// The items of these nodes, one after the other.
pub open spec fn items_text(items: Seq<Node>) -> Seq<char>
    decreases items,
{
    if items.len() == 0 {
        Seq::empty()
    } else {
        items_text(items.drop_last()) + entry_text(items.last())
    }
}

/// The listing of a forest: an unordered list of its roots' items.
pub open spec fn list_text(items: Seq<Node>) -> Seq<char> {
    "<ul>\n"@ + items_text(items) + "</ul>\n"@
}

/// `Arc::clone`: one more handle to the same node.
#[verifier::external_body]
pub(crate) fn share(item: &Arc<FsObject>) -> (handle: Arc<FsObject>)
    ensures
        handle == *item,
{
    Arc::clone(item)
}

/// Returns html unordered list from the forest, and enters its files in
/// `hash_map`.
pub fn unordered_list(files: &FsObjects, hash_map: &mut Index) -> (list: String)
    requires
        forest_named(forest_view(files@)),
    ensures
        list@ == list_text(forest_view(files@)),
        index_view(final(hash_map)@) == insert_all(
            index_view(old(hash_map)@),
            forest_listed_files(forest_view(files@)),
        ),
    decreases files, 1nat,
{
    let list_of_items = list_of_items(files, hash_map);
    let mut list = String::from_str("<ul>\n");
    list.append(list_of_items.as_str());
    list.append("</ul>\n");
    list
}

/// Returns the html code for the items of the forest.
pub fn list_of_items(items: &FsObjects, hash_map: &mut Index) -> (list: String)
    requires
        forest_named(forest_view(items@)),
    ensures
        list@ == items_text(forest_view(items@)),
        index_view(final(hash_map)@) == insert_all(
            index_view(old(hash_map)@),
            forest_listed_files(forest_view(items@)),
        ),
    decreases items, 0nat,
{
    let mut list = String::new();
    let ghost start = index_view(hash_map@);
    let ghost nodes = forest_view(items@);
    let n = items.len();
    let mut i: usize = 0;
    while i < n
        invariant
            i <= n,
            n == items.len(),
            nodes == forest_view(items@),
            forest_named(nodes),
            list@ == items_text(nodes.take(i as int)),
            index_view(hash_map@) == insert_all(start, forest_listed_files(nodes.take(i as int))),
        decreases n - i,
    {
        let item = &items[i];
        let ghost upto = nodes.take(i as int + 1);
        let ghost before = forest_listed_files(nodes.take(i as int));
        proof {
            assert(upto.drop_last() =~= nodes.take(i as int));
            assert(upto.last() == item@);
        }
        list.append(list_item(item, hash_map).as_str());
        proof {
            lemma_insert_all_concat(start, before, listed_files(item@));
            assert(forest_listed_files(upto) == before + listed_files(item@));
            assert(seq![item@].drop_last() =~= Seq::<Node>::empty());
            assert(insert_all(insert_all(start, before), Seq::<Node>::empty()) == insert_all(
                start,
                before,
            ));
        }
        if item.is_dir() {
            match &item.content {
                Some(content) => {
                    let unordered_list = unordered_list(content, hash_map);
                    list.append(unordered_list.as_str());
                    proof {
                        assert(entry_text(item@) =~= item_text(item@) + list_text(
                            forest_view(content@),
                        ));
                    }
                },
                None => {},
            }
        } else {
            proof {
                assert(entry_text(item@) == item_text(item@));
            }
        }
        i += 1;
    }
    proof {
        assert(nodes.take(n as int) =~= nodes);
    }
    list
}

/// Returns the html code for one list item and enters the item in
/// `hash_map` if it is a file.
pub fn list_item(item: &Arc<FsObject>, hash_map: &mut Index) -> (text: String)
    requires
        file_name_of(item@.path) is Some,
    ensures
        text@ == item_text(item@),
        index_view(final(hash_map)@) == (if item@.metadata.file_type == FileType::File {
            index_view(old(hash_map)@).insert(item@.identifier(), item@)
        } else {
            index_view(old(hash_map)@)
        }),
{
    if item.is_dir() {
        let mut text = String::from_str("<li>📁 ");
        text.append(item.name());
        text.append("</li>\n");
        text
    } else if item.is_symlink() {
        let mut text = String::from_str("<li>🔗 ");
        text.append(item.name());
        text.append("</li>\n");
        text
    } else {
        let hash_key = item.get_hash();
        hash_map.insert(hash_key, share(item));
        let mut text = String::from_str("<li>🗋 ");
        text.append(href(item.name(), url_download_item(hash_key).as_str()).as_str());
        text.append(", ");
        text.append(item.size().as_str());
        text.append(" ");
        text.append(href("[view]", url_preview_item(hash_key).as_str()).as_str());
        text.append("</li>\n");
        text
    }
}

/// Create HTML href from Text and URL
pub fn href(text: &str, url: &str) -> (link: String)
    ensures
        link@ == href_text(text@, url@),
{
    let mut link = String::from_str("<a href=\"");
    link.append(url);
    link.append("\">");
    link.append(text);
    link.append("</a>");
    link
}

/// Create URL to download item by its hash
/// URL format: "/dl?id={}", where {} is the identifier of the file
pub fn url_download_item(hash: u64) -> (url: String)
    ensures
        url@ == download_url(hash),
{
    let mut url = String::from_str("/dl?id=");
    url.append(decimal_string(hash).as_str());
    url
}

/// Create URL to preview item by its hash
/// URL format: "/pw?id={}", where {} is the identifier of the file
pub fn url_preview_item(hash: u64) -> (url: String)
    ensures
        url@ == preview_url(hash),
{
    let mut url = String::from_str("/pw?id=");
    url.append(decimal_string(hash).as_str());
    url
}

/// Whether every node at or below these roots has a name, so that the
/// forest can be listed.
pub fn has_names(items: &FsObjects) -> (b: bool)
    ensures
        b == forest_named(forest_view(items@)),
    decreases items,
{
    let n = items.len();
    let mut i: usize = 0;
    while i < n
        invariant
            i <= n,
            n == items.len(),
            forall|k: int| 0 <= k < i ==> named(#[trigger] forest_view(items@)[k]),
        decreases n - i,
    {
        let item: &FsObject = &items[i];
        let below = match &item.content {
            None => true,
            Some(content) => {
                has_names(content)
            },
        };
        if !below || file_name(item.path.as_str()).is_none() {
            proof {
                assert(!named(forest_view(items@)[i as int]));
            }
            return false;
        }
        i += 1;
    }
    true
}

/// What an index holds: the keys it had, and the identifiers of the files
/// entered since.
pub proof fn lemma_index_keys(index: Map<u64, Node>, files: Seq<Node>, id: u64)
    ensures
        insert_all(index, files).contains_key(id) <==> index.contains_key(id) || exists|i: int|
            0 <= i < files.len() && (#[trigger] files[i]).identifier() == id,
    decreases files.len(),
{
    if files.len() > 0 {
        let front = files.drop_last();
        lemma_index_keys(index, front, id);
        if exists|i: int| 0 <= i < files.len() && (#[trigger] files[i]).identifier() == id {
            let i = choose|i: int| 0 <= i < files.len() && (#[trigger] files[i]).identifier() == id;
            if i < front.len() {
                assert(front[i].identifier() == id);
            }
        }
    }
}

/// Every file that was entered is found again under its identifier, and
/// what is found is that file, unless a different file with the same
/// identifier was entered after it.
pub proof fn lemma_index_resolves(index: Map<u64, Node>, files: Seq<Node>, i: int)
    requires
        0 <= i < files.len(),
    ensures
        insert_all(index, files).contains_key(files[i].identifier()),
        (forall|j: int|
            i < j < files.len() && (#[trigger] files[j]).identifier() == files[i].identifier()
                ==> files[j] == files[i]) ==> insert_all(index, files)[files[i].identifier()]
            == files[i],
    decreases files.len(),
{
    let front = files.drop_last();
    if i < files.len() - 1 {
        lemma_index_resolves(index, front, i);
        if forall|j: int|
            i < j < files.len() && (#[trigger] files[j]).identifier() == files[i].identifier()
                ==> files[j] == files[i] {
        }
    }
}

proof fn lemma_concat_contains(first: Seq<Node>, second: Seq<Node>, node: Node)
    ensures
        (first + second).contains(node) <==> first.contains(node) || second.contains(node),
{
    let both = first + second;
    if first.contains(node) {
        let i = choose|i: int| 0 <= i < first.len() && first[i] == node;
        assert(both[i] == node);
    }
    if second.contains(node) {
        let i = choose|i: int| 0 <= i < second.len() && second[i] == node;
        assert(both[first.len() + i] == node);
    }
}

/// In a snapshot, every file that the traversal of a node yields is a file
/// that the listing of the node links to.
pub proof fn lemma_files_are_listed(node: Node, file: Node)
    requires
        node.wf(),
        node.select(Pick::Files).contains(file),
    ensures
        listed_files(node).contains(file),
    decreases node,
{
    match node.content {
        Some(items) => {
            lemma_stack_files_are_listed(items, file);
        },
        None => {},
    }
}

/// In a snapshot, every file that a traversal yields which holds these
/// nodes is a file that their listing links to.
pub proof fn lemma_stack_files_are_listed(items: Seq<Node>, file: Node)
    requires
        forest_wf(items),
        select_stack(Pick::Files, items).contains(file),
    ensures
        forest_listed_files(items).contains(file),
    decreases items,
{
    if items.len() > 0 {
        let front = items.drop_last();
        lemma_concat_contains(
            items.last().select(Pick::Files),
            select_stack(Pick::Files, front),
            file,
        );
        lemma_concat_contains(forest_listed_files(front), listed_files(items.last()), file);
        if items.last().select(Pick::Files).contains(file) {
            lemma_files_are_listed(items.last(), file);
        } else {
            lemma_stack_files_are_listed(front, file);
        }
    }
}

/// In a snapshot, every file that the traversals of the roots yield is a
/// file that the listing links to.
pub proof fn lemma_forest_files_are_listed(roots: Seq<Node>, file: Node)
    requires
        forest_wf(roots),
        select_forest(Pick::Files, roots).contains(file),
    ensures
        forest_listed_files(roots).contains(file),
    decreases roots.len(),
{
    if roots.len() > 0 {
        let front = roots.drop_last();
        lemma_concat_contains(
            select_forest(Pick::Files, front),
            roots.last().select(Pick::Files),
            file,
        );
        lemma_concat_contains(forest_listed_files(front), listed_files(roots.last()), file);
        if roots.last().select(Pick::Files).contains(file) {
            lemma_files_are_listed(roots.last(), file);
        } else {
            lemma_forest_files_are_listed(front, file);
        }
    }
}

/// Every file of a snapshot is found under its identifier in the index
/// that is made from the snapshot, and what is found is that file, unless
/// the snapshot lists a different file with the same identifier.
pub proof fn lemma_every_file_is_indexed(roots: Seq<Node>, file: Node)
    requires
        forest_wf(roots),
        select_forest(Pick::Files, roots).contains(file),
    ensures
        insert_all(Map::empty(), forest_listed_files(roots)).contains_key(file.identifier()),
        (forall|other: Node|
            forest_listed_files(roots).contains(other) && other.identifier()
                == file.identifier() ==> other == file) ==> insert_all(
            Map::empty(),
            forest_listed_files(roots),
        )[file.identifier()] == file,
{
    let listed = forest_listed_files(roots);
    lemma_forest_files_are_listed(roots, file);
    let i = choose|i: int| 0 <= i < listed.len() && listed[i] == file;
    lemma_index_resolves(Map::empty(), listed, i);
    if forall|other: Node|
        listed.contains(other) && other.identifier() == file.identifier() ==> other == file {
    }
}

/// Entering two runs of files one after the other is entering their
/// concatenation.
pub proof fn lemma_insert_all_concat(index: Map<u64, Node>, first: Seq<Node>, second: Seq<Node>)
    ensures
        insert_all(insert_all(index, first), second) == insert_all(index, first + second),
    decreases second.len(),
{
    if second.len() == 0 {
    } else {
        assert((first + second).drop_last() =~= first + second.drop_last());
        lemma_insert_all_concat(index, first, second.drop_last());
    }
}

} // verus!
