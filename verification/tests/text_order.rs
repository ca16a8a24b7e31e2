use acsync::common::{same_text, FsEntry};
use acsync::install_task::{containing_directory, get_directory_name_from_entry, is_model};
use acsync::text_order::{insert_ascending, precedes};

fn entry(path: &str, is_file: bool) -> FsEntry {
    FsEntry { path: path.to_string(), is_file }
}

#[test]
fn texts_sort_byte_by_byte() {
    assert!(precedes("", "a"));
    assert!(!precedes("", ""));
    assert!(!precedes("a", ""));
    assert!(precedes("a", "b"));
    assert!(!precedes("b", "a"));
    assert!(!precedes("abc", "abc"));
    assert!(precedes("abc", "abd"));
    assert!(precedes("ab", "abc"));
    assert!(!precedes("abc", "ab"));
    assert!(precedes("B", "a"));
    assert!(precedes("/a/b", "/a/b/c"));
    assert!(precedes("/a b", "/a/b"));
    assert!(precedes("z", "\u{e9}"));
    assert!(precedes("\u{e9}", "\u{4e2d}"));
    assert!(precedes("\u{ffff}", "\u{10000}"));
}

#[test]
fn the_order_is_that_of_the_standard_library() {
    let samples = ["", "a", "ab", "b", "B", "/x/y", "/x y", "\u{e9}", "e\u{301}", "\u{10000}", "~"];
    for left in samples.iter() {
        for right in samples.iter() {
            assert_eq!(precedes(left, right), left < right);
        }
    }
}

#[test]
fn insertion_keeps_the_list_sorted_and_free_of_repetitions() {
    let mut list: Vec<String> = vec![];
    for text in ["m", "a", "z", "m", "b", "a", "", "zz"] {
        insert_ascending(&mut list, text.to_string());
    }
    assert_eq!(list, vec!["", "a", "b", "m", "z", "zz"]);
}

#[test]
fn same_text_compares_characters() {
    assert!(same_text("content", "content"));
    assert!(!same_text("content", "Content"));
    assert!(!same_text("content", "contents"));
    assert!(same_text("", ""));
}

#[test]
fn the_directory_of_an_entry_is_its_parent() {
    assert_eq!(get_directory_name_from_entry(&entry("/a/b/c.kn5", true)), "/a/b");
    assert_eq!(get_directory_name_from_entry(&entry("/a/b/", false)), "/a");
    assert_eq!(get_directory_name_from_entry(&entry("c.kn5", true)), "");
    assert_eq!(containing_directory(&entry("/a/b/c.kn5", true)), Some("/a/b".to_string()));
    assert_eq!(containing_directory(&entry("/", false)), None);
    assert_eq!(containing_directory(&entry("", false)), None);
}

#[test]
fn a_model_is_a_file_whose_name_ends_in_kn5() {
    assert!(is_model(&entry("/a/b/c.kn5", true)));
    assert!(is_model(&entry("/a/b/.kn5", true)));
    assert!(is_model(&entry("c.x.kn5", true)));
    assert!(!is_model(&entry("/a/b/c.kn5", false)));
    assert!(!is_model(&entry("/a/b/c.kn5x", true)));
    assert!(!is_model(&entry("/a/b.kn5/c", true)));
    assert!(!is_model(&entry("/a/b/c.KN5", true)));
    assert!(!is_model(&entry("/a/b/kn5", true)));
}
