use minicloud::fs_object::{FileType, FsObject, FsObjects, Metadata};
use minicloud::html_page::{
    base, body, head, html_page, link, meta, script, style, title, META, SCRIPT, STYLE,
};
use minicloud::html_page_utils::{
    has_names, href, list_item, list_of_items, unordered_list, url_download_item,
    url_preview_item, Index,
};
use std::collections::HashMap;
use std::sync::Arc;

fn node(path: &str, file_type: FileType, len: u64, content: Option<FsObjects>) -> Arc<FsObject> {
    Arc::new(FsObject::new(path.to_string(), Metadata { file_type, len }, content))
}

fn file_item(name: &str, id: u64, size: &str) -> String {
    format!(
        "<li>🗋 <a href=\"/dl?id={}\">{}</a>, {} <a href=\"/pw?id={}\">[view]</a></li>\n",
        id, name, size, id
    )
}

#[test]
fn href_of_text_and_url() {
    assert_eq!(href("a.txt", "/dl?id=5"), "<a href=\"/dl?id=5\">a.txt</a>");
    assert_eq!(href("", ""), "<a href=\"\"></a>");
}

#[test]
fn urls_of_an_identifier() {
    assert_eq!(url_download_item(0), "/dl?id=0");
    assert_eq!(url_download_item(1234), "/dl?id=1234");
    assert_eq!(url_preview_item(1234), "/pw?id=1234");
    assert_eq!(url_preview_item(u64::MAX), "/pw?id=18446744073709551615");
}

#[test]
fn item_of_a_directory_and_of_a_link_enters_nothing() {
    let mut index: Index = HashMap::new();
    let d = node("/r/docs", FileType::Directory, 4096, None);
    assert_eq!(list_item(&d, &mut index), "<li>📁 docs</li>\n");
    let s = node("/r/link", FileType::Symlink, 4, None);
    assert_eq!(list_item(&s, &mut index), "<li>🔗 link</li>\n");
    assert!(index.is_empty());
}

#[test]
fn item_of_a_file_links_to_it_and_enters_it() {
    let mut index: Index = HashMap::new();
    let f = node("/r/a.txt", FileType::File, 2048, None);
    let id = f.get_hash();
    assert_eq!(list_item(&f, &mut index), file_item("a.txt", id, "2 kB"));
    assert_eq!(index.len(), 1);
    assert!(Arc::ptr_eq(&index[&id], &f));
}

#[test]
fn list_nests_what_a_directory_holds() {
    let b = node("/r/docs/b.md", FileType::File, 12, None);
    let a = node("/r/a.txt", FileType::File, 4, None);
    let forest = vec![
        a.clone(),
        node(
            "/r/docs",
            FileType::Directory,
            4096,
            Some(vec![b.clone(), node("/r/docs/l", FileType::Symlink, 1, None)]),
        ),
        node("/r/empty", FileType::Directory, 4096, None),
    ];
    let mut index: Index = HashMap::new();
    let items = list_of_items(&forest, &mut index);
    let expected_items = format!(
        "{}<li>📁 docs</li>\n<ul>\n{}<li>🔗 l</li>\n</ul>\n<li>📁 empty</li>\n",
        file_item("a.txt", a.get_hash(), "0 kB"),
        file_item("b.md", b.get_hash(), "0 kB"),
    );
    assert_eq!(items, expected_items);
    assert_eq!(index.len(), 2);

    let mut again: Index = HashMap::new();
    assert_eq!(
        unordered_list(&forest, &mut again),
        format!("<ul>\n{}</ul>\n", expected_items)
    );
    assert_eq!(again.len(), 2);
    assert!(Arc::ptr_eq(&again[&a.get_hash()], &a));
    assert!(Arc::ptr_eq(&again[&b.get_hash()], &b));
}

#[test]
fn list_of_nothing() {
    let mut index: Index = HashMap::new();
    assert_eq!(list_of_items(&Vec::new(), &mut index), "");
    assert_eq!(unordered_list(&Vec::new(), &mut index), "<ul>\n</ul>\n");
    assert!(index.is_empty());
}

#[test]
fn what_is_below_a_file_is_not_listed() {
    let odd = node(
        "/odd",
        FileType::File,
        0,
        Some(vec![node("/odd/in", FileType::File, 0, None)]),
    );
    let mut index: Index = HashMap::new();
    let text = list_of_items(&vec![odd.clone()], &mut index);
    assert_eq!(text, file_item("odd", odd.get_hash(), "0 kB"));
    assert_eq!(index.len(), 1);
}

#[test]
fn index_keeps_what_it_held() {
    let old = node("/old", FileType::File, 0, None);
    let new = node("/new", FileType::File, 0, None);
    let mut index: Index = HashMap::new();
    index.insert(7, old.clone());
    unordered_list(&vec![new.clone()], &mut index);
    assert_eq!(index.len(), 2);
    assert!(Arc::ptr_eq(&index[&7], &old));
    assert!(Arc::ptr_eq(&index[&new.get_hash()], &new));
}

#[test]
fn of_two_files_with_one_identifier_the_later_stays() {
    let first = node("/same", FileType::File, 1, None);
    let second = node("/same", FileType::File, 2, None);
    assert_eq!(first.get_hash(), second.get_hash());
    let mut index: Index = HashMap::new();
    unordered_list(&vec![first.clone(), second.clone()], &mut index);
    assert_eq!(index.len(), 1);
    assert!(Arc::ptr_eq(&index[&first.get_hash()], &second));
}

#[test]
fn every_listed_file_is_found_under_its_identifier() {
    let files: Vec<Arc<FsObject>> = (0..20)
        .map(|i| node(&format!("/r/d/f{}", i), FileType::File, i, None))
        .collect();
    let forest = vec![
        node("/r/d", FileType::Directory, 0, Some(files.clone())),
        node("/r/top", FileType::File, 0, None),
    ];
    let mut index: Index = HashMap::new();
    unordered_list(&forest, &mut index);
    assert_eq!(index.len(), 21);
    for f in files.iter().chain(std::iter::once(&forest[1])) {
        assert!(Arc::ptr_eq(&index[&f.get_hash()], f));
    }
}

#[test]
fn names_are_needed_at_every_level() {
    assert!(has_names(&Vec::new()));
    assert!(has_names(&vec![node("/r/a", FileType::File, 0, None)]));
    assert!(!has_names(&vec![node("/", FileType::Directory, 0, None)]));
    assert!(!has_names(&vec![node("/r/..", FileType::Directory, 0, None)]));
    let deep = node(
        "/r",
        FileType::Directory,
        0,
        Some(vec![node("/r/a", FileType::File, 0, None), node("", FileType::File, 0, None)]),
    );
    assert!(!has_names(&vec![deep]));
}

#[test]
fn head_elements() {
    assert_eq!(title("1.2.3"), "\n<title> Minicloud v1.2.3 </title>\n");
    assert_eq!(style(), STYLE);
    assert!(STYLE.starts_with("\n<style>\n    ul,\n    #myUL {\n      list-style-type: none;\n"));
    assert!(STYLE.contains("content: \"\\25B6\";"));
    assert!(STYLE.ends_with("    .active {\n      display: block;\n    }\n</style>"));
    assert_eq!(
        meta(),
        "\n<meta name=\"viewport\" content=\"width=device-width, initial-scale=1\">\n"
    );
    assert_eq!(meta(), META);
    assert_eq!(link(), "\n");
    assert_eq!(script(), SCRIPT);
    assert!(SCRIPT.starts_with("\n<script>\n    var toggler"));
    assert!(SCRIPT.ends_with("</script>\n"));
    assert_eq!(base(), "");
}

#[test]
fn head_holds_its_elements_in_order() {
    let pad = "\n            ";
    let expected = format!(
        "<head>{pad}{}{pad}{}{pad}{}{pad}{}{pad}{}{pad}{}\n        \r</head>\n",
        title("0.1.0"),
        style(),
        meta(),
        link(),
        script(),
        base(),
        pad = pad
    );
    assert_eq!(head("0.1.0"), expected);
}

#[test]
fn page_holds_head_and_body() {
    let a = node("/r/a.txt", FileType::File, 4, None);
    let forest = vec![a.clone()];
    let (body_text, body_index) = body(&forest);
    assert_eq!(
        body_text,
        format!("<body>\n<ul>\n{}</ul>\n\n</body>", file_item("a.txt", a.get_hash(), "0 kB"))
    );
    assert_eq!(body_index.len(), 1);
    let (page, index) = html_page(&forest, "0.1.0");
    assert_eq!(
        page,
        format!("<!DOCTYPE html>\n<html>\n{}\n{}\n</html>", head("0.1.0"), body_text)
    );
    assert_eq!(index.len(), 1);
    assert!(Arc::ptr_eq(&index[&a.get_hash()], &a));
}
