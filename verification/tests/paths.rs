use viap::list::{sorted_texts, stable_sort, Queue, Ranked};
use viap::path::{
    components_of, extension_of, is_in, join, last_extension_of, last_name_of, last_stem_of,
    names_below_root_of, parent_of, plain_of, stem_of, strip, written_components_of,
};
use viap::path_order::sorted_paths;

fn texts(names: &[&str]) -> Vec<String> {
    names.iter().map(|name| name.to_string()).collect()
}

#[test]
fn components_are_roots_and_names() {
    assert_eq!(components_of(r"c:\a/.\\b\"), texts(&["C:", "\\", "a", "b"]));
    assert_eq!(components_of(r"C:a"), texts(&["C:", "a"]));
    assert_eq!(components_of(r"C:.\a"), texts(&["C:", "a"]));
    assert_eq!(components_of(r"\\server\share\x"), texts(&["//server/share", "\\", "x"]));
    assert_eq!(components_of("//server/share"), texts(&["//server/share", "\\"]));
    assert_eq!(components_of(r"\\server"), texts(&["\\", "server"]));
    assert_eq!(components_of(r"\x\.."), texts(&["\\", "x", ".."]));
    assert_eq!(components_of("a"), texts(&["a"]));
    assert!(components_of("").is_empty());
}

#[test]
fn a_leading_dot_is_a_component() {
    assert_eq!(components_of(r".\a"), texts(&[".", "a"]));
    assert_eq!(components_of("./"), texts(&["."]));
    assert_eq!(components_of(r"a\.\b"), texts(&["a", "b"]));
    assert_eq!(components_of(".a"), texts(&[".a"]));
    assert_eq!(parent_of(r".\a").as_deref(), Some("."));
    assert_eq!(parent_of(".").as_deref(), Some(""));
    assert_eq!(strip(r".\a\b", "."), Some(r"a\b".to_string()));
}

#[test]
fn verbatim_paths_are_taken_as_written() {
    assert_eq!(components_of(r"\\?\c:\a/b\.\c"), texts(&[r"\\?\C:", "\\", "a/b", ".", "c"]));
    assert_eq!(components_of(r"\\?\UNC\s\h\a"), texts(&[r"\\?\UNC\s\h", "\\", "a"]));
    assert_eq!(components_of(r"\\?\pipe\x"), texts(&[r"\\?\pipe", "\\", "x"]));
    assert_eq!(components_of(r"\\?\C:"), texts(&[r"\\?\C:"]));
    assert_eq!(components_of(r"\\.\COM1\x"), texts(&[r"\\.\COM1", "\\", "x"]));
    assert!(!is_in(r"\\?\C:\a", r"C:\a"));
    assert_eq!(written_components_of(r"//s/h/x"), texts(&["//s/h", "\\", "x"]));
    assert_eq!(join(r"\\?\C:\a\b", r"..\.\c"), r"\\?\C:\a\c");
    assert_eq!(join(r"\\?\C:\a", r"\c"), r"\\?\C:\c");
    assert_eq!(join(r"\\?\C:", "c"), r"\\?\C:\c");
    assert_eq!(join(r"\\?\C:\a", ""), r"\\?\C:\a\");
    assert_eq!(last_name_of(r"\\?\C:\a\."), None);
}

#[test]
fn paths_are_joined() {
    assert_eq!(join(r"C:\a", "b"), r"C:\a\b");
    assert_eq!(join(r"C:\a\", "b"), r"C:\a\b");
    assert_eq!(join("C:/a", "b"), r"C:/a\b");
    assert_eq!(join("C:", "b"), "C:b");
    assert_eq!(join("", "b"), "b");
    assert_eq!(join(r"C:\a", ""), r"C:\a\");
    assert_eq!(join(r"C:\a", r"D:\b"), r"D:\b");
    assert_eq!(join(r"C:\a", "D:b"), "D:b");
    assert_eq!(join(r"C:\a", r"\b"), r"C:\b");
    assert_eq!(join(r"\\s\h\a", r"\b"), r"\\s\h\b");
    assert_eq!(join(r"\\s\h", "b"), r"\\s\h\b");
    assert_eq!(join(r"C:\a", r"\\s\h"), r"\\s\h");
}

#[test]
fn extended_paths_become_plain() {
    assert_eq!(plain_of(r"\\?\C:\a"), r"C:\a");
    assert_eq!(plain_of(r"\??\C:\a"), r"C:\a");
    assert_eq!(plain_of(r"\\server\a"), r"\\server\a");
}

#[test]
fn paths_lie_in_others_by_components() {
    assert!(is_in(r"c:\A\b", r"C:/A"));
    assert!(is_in(r"C:\A", r"C:\A\"));
    assert!(!is_in(r"C:\A2", r"C:\A"));
    assert!(!is_in(r"C:\a", r"C:\A"));
    assert!(!is_in(r"D:\A", r"C:\A"));
    assert_eq!(strip(r"C:\A\b\c", r"C:\A").as_deref(), Some(r"b\c"));
    assert_eq!(strip(r"C:\A\\b//.\c\.\", "C:/A").as_deref(), Some(r"b//.\c"));
    assert_eq!(strip(r"C:\A", r"C:\A").as_deref(), Some(""));
    assert_eq!(strip(r"C:\A", r"C:\A\b"), None);
    assert_eq!(strip(r"C:\A", "C:").as_deref(), Some(r"\A"));
    assert_eq!(strip(r"C:\A\", "").as_deref(), Some(r"C:\A"));
    assert_eq!(strip(r"\\s\h\x", r"\\s\h").as_deref(), Some("x"));
    assert!(!is_in(r"\\s\h\x", r"\\s"));
}

#[test]
fn joined_paths_are_stripped_again() {
    for base in [r"C:\", r"C:\a", r"C:/a/", r"\\s\h", r"\\s\h\x\"] {
        for rest in ["b", r"b\c.d\..", "b/c"] {
            assert_eq!(strip(&join(base, rest), base).as_deref(), Some(rest));
        }
    }
}

#[test]
fn last_names_and_extensions_are_found() {
    let last = |path| last_name_of(path);
    assert_eq!(last(r"C:\a\b.txt\").as_deref(), Some("b.txt"));
    assert_eq!(last(r"C:\"), None);
    assert_eq!(last(r"\\server\share"), None);
    assert_eq!(last(r"\\server\share\a").as_deref(), Some("a"));
    assert_eq!(last(r"C:\a\.."), None);
    assert_eq!(names_below_root_of(r"C:\Users\x"), texts(&["Users", "x"]));
    assert!(names_below_root_of(r"\\server\share").is_empty());
    assert_eq!(extension_of("a.b.c").as_deref(), Some("c"));
    assert_eq!(extension_of("a.").as_deref(), Some(""));
    assert_eq!(extension_of(".a"), None);
    assert_eq!(extension_of("a"), None);
    assert_eq!(extension_of(".."), None);
    assert_eq!((stem_of("a.b.c").as_str(), stem_of(".a").as_str()), ("a.b", ".a"));
    assert_eq!((stem_of("a").as_str(), stem_of("..").as_str()), ("a", ".."));
    assert_eq!(last_stem_of(r"C:\a\b.exe"), "b");
    assert_eq!(last_extension_of(r"C:\a\b.exe").as_deref(), Some("exe"));
    assert_eq!(parent_of(r"C:\a\b.exe").as_deref(), Some(r"C:\a"));
    assert_eq!(parent_of(r"C:\a\\b/").as_deref(), Some(r"C:\a"));
    assert_eq!(parent_of(r"C:\a\.\b\.").as_deref(), Some(r"C:\a"));
    assert_eq!(parent_of(r"C:\b").as_deref(), Some(r"C:\"));
    assert_eq!(parent_of(r"\\s\h\x").as_deref(), Some(r"\\s\h\"));
    assert_eq!(parent_of("b").as_deref(), Some(""));
    assert_eq!(parent_of(r"C:\"), None);
    assert_eq!(parent_of(r"\\s\h"), None);
}

/// An item without an order.
#[derive(Debug, PartialEq)]
struct Item(u32);

#[test]
fn queues_keep_the_order() {
    let mut queue = Queue::of(vec![Item(1), Item(2), Item(3)]);
    assert_eq!(queue.first(), &Item(1));
    assert_eq!(queue.take_first(), Item(1));
    assert_eq!(queue.take_first(), Item(2));
    assert_eq!(queue.len(), 1);
}

#[test]
fn texts_are_sorted_and_kept_once() {
    let given = texts(&["b", "a", "c", "b", "", "ab", "a"]);
    assert_eq!(stable_sort(given.clone()), texts(&["", "a", "a", "ab", "b", "b", "c"]));
    assert_eq!(sorted_texts(given), texts(&["", "a", "ab", "b", "c"]));
    assert!("a".to_string().precedes(&"ab".to_string()));
    let many: Vec<String> = (0..200_000).rev().map(|i| format!("{:06}", i)).collect();
    let sorted = stable_sort(many);
    assert_eq!((sorted[0].as_str(), sorted[199_999].as_str()), ("000000", "199999"));
}

#[test]
fn paths_are_ordered_by_their_components() {
    let given = texts(&[
        "a b",
        "a\\c",
        "a",
        "a/c",
        "C:\\x",
        "\\\\a-b\\x",
        "\\\\a\\x",
        "c:/x",
        "\\\\?\\C:\\x",
        "..",
        "\\x",
        "",
    ]);
    assert_eq!(
        sorted_paths(given),
        texts(&[
            "",
            "\\\\?\\C:\\x",
            "\\\\a\\x",
            "\\\\a-b\\x",
            "C:\\x",
            "\\x",
            "..",
            "a",
            "a\\c",
            "a b",
        ])
    );
    assert!(sorted_paths(Vec::new()).is_empty());
}
