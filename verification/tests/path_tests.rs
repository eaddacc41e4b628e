use disk_drive::path::{file_name, has_root, join, parent, resolve_scope, to_path};
use std::path::Path;

fn std_parent(path: &str) -> Option<Vec<u8>> {
    Path::new(path)
        .parent()
        .map(|p| p.to_str().unwrap().as_bytes().to_vec())
}

fn std_file_name(path: &str) -> Option<Vec<u8>> {
    Path::new(path)
        .file_name()
        .map(|n| n.to_str().unwrap().as_bytes().to_vec())
}

fn std_join(base: &str, rel: &str) -> Vec<u8> {
    Path::new(base).join(rel).to_str().unwrap().as_bytes().to_vec()
}

const SAMPLES: [&str; 30] = [
    "", "/", "//", "///", ".", "..", "./", "./.", "/.", "/..", "a", "a/", "a/.", "a/..", "a/b",
    "a//b", "a/./b", "/a", "/a/", "/a/b", "/a/b/", "/a/b/.", "/a//b", "/a/./b", "/a/b.txt",
    "./a", "../a", ".a", "a.", "/a/b/../c",
];

#[test]
fn resolve_scope_defaults_to_root() {
    assert_eq!(resolve_scope(None), b"/".to_vec());
}

#[test]
fn resolve_scope_roots_a_relative_path() {
    assert_eq!(resolve_scope(Some(b"a/b")), b"/a/b".to_vec());
    assert_eq!(resolve_scope(Some(b"")), b"/".to_vec());
}

#[test]
fn resolve_scope_keeps_a_rooted_path() {
    assert_eq!(resolve_scope(Some(b"/a/b")), b"/a/b".to_vec());
    assert_eq!(resolve_scope(Some(b"/")), b"/".to_vec());
}

#[test]
fn resolve_scope_agrees_with_std_join_onto_root() {
    for sample in SAMPLES {
        let expected = if Path::new(sample).starts_with("/") {
            sample.as_bytes().to_vec()
        } else {
            std_join("/", sample)
        };
        assert_eq!(resolve_scope(Some(sample.as_bytes())), expected, "{sample:?}");
    }
}

#[test]
fn has_root_tells_a_leading_separator() {
    assert!(has_root(b"/"));
    assert!(has_root(b"/a"));
    assert!(!has_root(b""));
    assert!(!has_root(b"a/"));
}

#[test]
fn to_path_copies_the_bytes() {
    assert_eq!(to_path(b"/a/b"), b"/a/b".to_vec());
    assert_eq!(to_path(b""), Vec::<u8>::new());
}

#[test]
fn join_puts_one_separator_between() {
    assert_eq!(join(b"/dest", b"a/b.txt"), b"/dest/a/b.txt".to_vec());
    assert_eq!(join(b"/dest/", b"a"), b"/dest/a".to_vec());
    assert_eq!(join(b"", b"a"), b"a".to_vec());
    assert_eq!(join(b"/a", b""), b"/a/".to_vec());
}

#[test]
fn join_with_a_rooted_path_replaces_the_base() {
    assert_eq!(join(b"/dest", b"/a/b.txt"), b"/a/b.txt".to_vec());
    assert_eq!(join(b"/", b"/a"), b"/a".to_vec());
}

#[test]
fn join_agrees_with_std() {
    for base in SAMPLES {
        for rel in SAMPLES {
            assert_eq!(
                join(base.as_bytes(), rel.as_bytes()),
                std_join(base, rel),
                "{base:?} joined with {rel:?}"
            );
        }
    }
}

#[test]
fn parent_skips_trailing_separators_and_dots() {
    assert_eq!(parent(b"/a/b"), Some(b"/a".to_vec()));
    assert_eq!(parent(b"/a/b/"), Some(b"/a".to_vec()));
    assert_eq!(parent(b"/a/b/."), Some(b"/a".to_vec()));
    assert_eq!(parent(b"/a//b"), Some(b"/a".to_vec()));
    assert_eq!(parent(b"/a"), Some(b"/".to_vec()));
    assert_eq!(parent(b"a"), Some(Vec::new()));
}

#[test]
fn parent_of_root_and_of_nothing_is_none() {
    assert_eq!(parent(b"/"), None);
    assert_eq!(parent(b"//"), None);
    assert_eq!(parent(b""), None);
}

#[test]
fn parent_agrees_with_std() {
    for sample in SAMPLES {
        assert_eq!(parent(sample.as_bytes()), std_parent(sample), "{sample:?}");
    }
}

#[test]
fn file_name_is_the_last_component() {
    assert_eq!(file_name(b"/a/b.txt"), Some(b"b.txt".to_vec()));
    assert_eq!(file_name(b"/a/b/"), Some(b"b".to_vec()));
    assert_eq!(file_name(b"b"), Some(b"b".to_vec()));
    assert_eq!(file_name(b"/a/."), Some(b"a".to_vec()));
}

#[test]
fn file_name_is_none_without_a_name() {
    assert_eq!(file_name(b"/"), None);
    assert_eq!(file_name(b""), None);
    assert_eq!(file_name(b"."), None);
    assert_eq!(file_name(b".."), None);
    assert_eq!(file_name(b"/a/.."), None);
}

#[test]
fn file_name_agrees_with_std() {
    for sample in SAMPLES {
        assert_eq!(file_name(sample.as_bytes()), std_file_name(sample), "{sample:?}");
    }
}

#[test]
fn non_utf8_paths_are_taken_apart_bytewise() {
    let path = [b'/', 0xff, b'/', 0xfe, 0x80];
    assert_eq!(parent(&path), Some(vec![b'/', 0xff]));
    assert_eq!(file_name(&path), Some(vec![0xfe, 0x80]));
}
