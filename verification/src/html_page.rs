//! A whole page around the listing of a snapshot.

use crate::fs_object::{forest_view, FsObjects, Node};
use crate::html_page_utils::{
    forest_listed_files, forest_named, index_view, insert_all, list_text, Index,
};
use std::collections::HashMap;
use vstd::prelude::*;
use vstd::string::StringExecFns;

pub use crate::html_page_utils::unordered_list;

verus! {

/// The style sheet of the page.
pub const STYLE: &'static str = "\n<style>
    ul,
    #myUL {
      list-style-type: none;
    }

    #myUL {
      margin: 0;
      padding: 0;
    }

    .caret::before {
      content: \"\\25B6\";
      color: black;
      display: inline-block;
      margin-right: 5px;
    }

    .caret-down::before {
      -ms-transform: rotate(90deg);
      /* IE 9 */
      -webkit-transform: rotate(90deg);
      /* Safari */
      transform: rotate(90deg);
    }

    .nested {
      display: none;
    }

    .active {
      display: block;
    }
</style>";

/// What lets the reader of the page fold its lists.
pub const SCRIPT: &'static str = "\n<script>
    var toggler = document.getElementsByClassName(\"caret\");
    var i;
    for (i = 0; i < toggler.length; i++) {
        toggler[i].addEventListener(\"click\", function () {
            this.parentElement.querySelector(\".nested\").classList.toggle(\"active\");
            this.classList.toggle(\"caret-down\");
        });
    }
</script>\n";

/// How the page is to be laid out on a small screen.
pub const META: &'static str =
    "\n<meta name=\"viewport\" content=\"width=device-width, initial-scale=1\">\n";

/// The title element for a program of this version.
pub open spec fn title_text(version: Seq<char>) -> Seq<char> {
    "\n<title> Minicloud v"@ + version + " </title>\n"@
}

/// The head of the page: its six elements, each on a line of its own.
pub open spec fn head_text(version: Seq<char>) -> Seq<char> {
    "<head>\n            "@ + title_text(version) + "\n            "@ + STYLE@
        + "\n            "@ + META@ + "\n            "@ + "\n"@ + "\n            "@ + SCRIPT@
        + "\n            "@ + ""@ + "\n        \r</head>\n"@
}

/// The body of the page: the listing of the forest.
pub open spec fn body_text(items: Seq<Node>) -> Seq<char> {
    "<body>\n"@ + list_text(items) + "\n</body>"@
}

/// The page: the head, then the body.
pub open spec fn page_text(items: Seq<Node>, version: Seq<char>) -> Seq<char> {
    "<!DOCTYPE html>\n<html>\n"@ + head_text(version) + "\n"@ + body_text(items)
        + "\n</html>"@
}

/// The page that lists the forest, and the index of its files.
pub fn html_page(fsobjects: &FsObjects, version: &str) -> (page: (String, Index))
    requires
        forest_named(forest_view(fsobjects@)),
    ensures
        page.0@ == page_text(forest_view(fsobjects@), version@),
        index_view(page.1@) == insert_all(
            Map::empty(),
            forest_listed_files(forest_view(fsobjects@)),
        ),
{
    let (body, hash_map) = body(fsobjects);
    let mut html = String::from_str("<!DOCTYPE html>\n<html>\n");
    html.append(head(version).as_str());
    html.append("\n");
    html.append(body.as_str());
    html.append("\n</html>");
    (html, hash_map)
}

//------------------------------ Head elements -----------------------------------------------------
/// The head of the page.
pub fn head(version: &str) -> (text: String)
    ensures
        text@ == head_text(version@),
{
    let mut text = String::from_str("<head>\n            ");
    text.append(title(version).as_str());
    text.append("\n            ");
    text.append(style().as_str());
    text.append("\n            ");
    text.append(meta().as_str());
    text.append("\n            ");
    text.append(link().as_str());
    text.append("\n            ");
    text.append(script().as_str());
    text.append("\n            ");
    text.append(base().as_str());
    text.append("\n        \r</head>\n");
    text
}

/// The title element, which names the program and its version.
pub fn title(version: &str) -> (text: String)
    ensures
        text@ == title_text(version@),
{
    let mut text = String::from_str("\n<title> Minicloud v");
    text.append(version);
    text.append(" </title>\n");
    text
}

/// The style sheet of the page.
pub fn style() -> (text: String)
    ensures
        text@ == STYLE@,
{
    String::from_str(STYLE)
}

/// How the page is to be laid out on a small screen.
pub fn meta() -> (text: String)
    ensures
        text@ == META@,
{
    String::from_str(META)
}

/// The links of the page to other resources: none.
pub fn link() -> (text: String)
    ensures
        text@ == "\n"@,
{
    String::from_str("\n")
}

/// What lets the reader of the page fold its lists.
pub fn script() -> (text: String)
    ensures
        text@ == SCRIPT@,
{
    String::from_str(SCRIPT)
}

/// The base address of the links of the page: none.
pub fn base() -> (text: String)
    ensures
        text@ == ""@,
{
    String::from_str("")
}

//--------------------------------------------------------------------------------------------------
/// The body of the page that lists the forest, and the index of its files.
pub fn body(fsobjects: &FsObjects) -> (body: (String, Index))
    requires
        forest_named(forest_view(fsobjects@)),
    ensures
        body.0@ == body_text(forest_view(fsobjects@)),
        index_view(body.1@) == insert_all(
            Map::empty(),
            forest_listed_files(forest_view(fsobjects@)),
        ),
{
    let mut hash_map: Index = HashMap::new();
    proof {
        assert(index_view(hash_map@) =~= Map::<u64, Node>::empty());
    }
    let unordered_list = unordered_list(fsobjects, &mut hash_map);
    let mut text = String::from_str("<body>\n");
    text.append(unordered_list.as_str());
    text.append("\n</body>");
    (text, hash_map)
}

} // verus!
