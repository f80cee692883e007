use comm_node::files::FileStore;
use comm_node::strutil::{file_name_of, join_path, path_in_dir, str_eq, str_starts_with, trim};

#[test]
fn trim_strips_surrounding_whitespace() {
    assert_eq!(trim("  hello \t\r\n"), "hello");
    assert_eq!(trim(""), "");
    assert_eq!(trim(" \n "), "");
    assert_eq!(trim("a b"), "a b");
}

#[test]
fn string_primitives() {
    assert!(str_eq("abc", "abc"));
    assert!(!str_eq("abc", "abd"));
    assert!(str_starts_with("a/b/c", "a/b"));
    assert!(!str_starts_with("a", "a/b"));
    assert_eq!(join_path("dir", "file.md"), "dir/file.md");
    assert_eq!(file_name_of("a/b/c.md"), "c.md");
    assert_eq!(file_name_of("plain.md"), "plain.md");
}

#[test]
fn path_in_dir_respects_boundaries() {
    assert!(path_in_dir("out/box/f.md", "out/box"));
    assert!(path_in_dir("out/box", "out/box"));
    assert!(!path_in_dir("out/boxes/f.md", "out/box"));
    assert!(!path_in_dir("out", "out/box"));
}

#[test]
fn file_store_overwrites_and_removes() {
    let mut files = FileStore::new();
    files.write("p", b"one".to_vec());
    files.write("p", b"two".to_vec());
    assert_eq!(files.read("p").unwrap().as_slice(), b"two");
    files.remove("p");
    assert!(files.read("p").is_none());
    files.remove("p");
    assert!(files.read("p").is_none());
}
