use minicloud::cli_args::Args;
use minicloud::path::{file_name, path_precedes};
use minicloud::text::{chars_of, decimal_string};

fn args(paths: &[&str]) -> Args {
    Args {
        paths: paths.iter().map(|p| p.to_string()).collect(),
        port: 48666,
        receive: false,
        received_files_path: None,
        max_total_received_files_size: 50,
    }
}

#[test]
fn decimal_of_numbers() {
    assert_eq!(decimal_string(0), "0");
    assert_eq!(decimal_string(7), "7");
    assert_eq!(decimal_string(10), "10");
    assert_eq!(decimal_string(1234567890), "1234567890");
    assert_eq!(decimal_string(u64::MAX), "18446744073709551615");
}

#[test]
fn chars_of_a_text() {
    let chars = chars_of("a/é📁");
    assert_eq!(chars, vec!['a', '/', 'é', '📁']);
    assert!(chars_of("").is_empty());
}

#[test]
fn file_name_of_plain_paths() {
    assert_eq!(file_name("/srv/docs/b.md"), Some("b.md"));
    assert_eq!(file_name("b.md"), Some("b.md"));
    assert_eq!(file_name("/srv/dé/📁"), Some("📁"));
    assert_eq!(file_name("/a"), Some("a"));
    assert_eq!(file_name("..."), Some("..."));
    assert_eq!(file_name("/srv/.hidden"), Some(".hidden"));
}

#[test]
fn file_name_skips_what_follows_the_last_component() {
    assert_eq!(file_name("/srv/docs/"), Some("docs"));
    assert_eq!(file_name("/srv/docs//"), Some("docs"));
    assert_eq!(file_name("/srv/docs/."), Some("docs"));
    assert_eq!(file_name("/srv/docs/./"), Some("docs"));
    assert_eq!(file_name("docs/.//./"), Some("docs"));
}

#[test]
fn file_name_of_paths_without_one() {
    assert_eq!(file_name(""), None);
    assert_eq!(file_name("/"), None);
    assert_eq!(file_name("//"), None);
    assert_eq!(file_name("."), None);
    assert_eq!(file_name("./"), None);
    assert_eq!(file_name("/."), None);
    assert_eq!(file_name(".."), None);
    assert_eq!(file_name("/srv/.."), None);
    assert_eq!(file_name("/srv/../"), None);
}

#[test]
fn file_name_agrees_with_the_standard_library() {
    for path in [
        "/srv/docs/b.md", "b.md", "/", "", ".", "..", "/srv/..", "/srv/docs/", "/srv/docs/.",
        "a/./", "./a", "/a/b/../c", "...", "/.", "./", "a//b", "a/b//", ".a", "a.",
    ] {
        let expected = std::path::Path::new(path).file_name().and_then(|n| n.to_str());
        assert_eq!(file_name(path), expected, "{:?}", path);
    }
}

#[test]
fn order_of_paths() {
    assert!(path_precedes("/a", "/b"));
    assert!(!path_precedes("/b", "/a"));
    assert!(!path_precedes("/a", "/a"));
    assert!(path_precedes("/a", "/a/b"));
    assert!(path_precedes("", "/"));
    assert!(!path_precedes("", ""));
    assert!(path_precedes("/a/b", "/a-b"));
    assert!(!path_precedes("/a-b", "/a/b"));
    assert!(path_precedes("/a/b/c", "/a/bc"));
    assert!(path_precedes("/a/z", "/a/é"));
}

#[test]
fn order_of_paths_agrees_with_the_standard_library() {
    let paths = ["/a", "/a/b", "/a-b", "/a/b/c", "/a/bc", "/b", "/a b", "/A", "/a/é", "/"];
    for x in paths {
        for y in paths {
            let expected = std::path::Path::new(x) < std::path::Path::new(y);
            assert_eq!(path_precedes(x, y), expected, "{:?} {:?}", x, y);
        }
    }
}

#[test]
fn prepare_paths_drops_sorts_and_keeps_each_once() {
    let mut a = args(&["b", "missing", "a", "./b", "sub-dir", "sub"]);
    a.prepare_paths(vec![
        Some("/w/b".to_string()),
        None,
        Some("/w/a".to_string()),
        Some("/w/b".to_string()),
        Some("/w/sub-dir".to_string()),
        Some("/w/sub/x".to_string()),
    ]);
    assert_eq!(a.paths, vec!["/w/a", "/w/b", "/w/sub/x", "/w/sub-dir"]);
    assert_eq!(a.port, 48666);
    assert!(!a.receive);
    assert!(a.received_files_path.is_none());
    assert_eq!(a.max_total_received_files_size, 50);
}

#[test]
fn prepare_paths_with_nothing_resolved() {
    let mut a = args(&["x", "y"]);
    a.prepare_paths(vec![None, None]);
    assert!(a.paths.is_empty());
    let mut b = args(&[]);
    b.prepare_paths(vec![]);
    assert!(b.paths.is_empty());
}

#[test]
fn remove_repeated_paths_sorts_and_keeps_each_once() {
    let mut a = args(&["/c", "/a", "/c", "/b", "/a", "/c"]);
    a.remove_repeated_paths();
    assert_eq!(a.paths, vec!["/a", "/b", "/c"]);
    let mut sorted = vec!["/c", "/a", "/c", "/b", "/a", "/c"];
    sorted.sort();
    sorted.dedup();
    assert_eq!(a.paths, sorted);
}
