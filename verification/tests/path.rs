use std::cmp::Ordering;

use musing::path::{
    file_extension, has_allowed_extension, is_in_dir, join_path, path_less, path_ordering, strip_dir_prefix,
    trim_end_slashes,
};

#[test]
fn joining_paths() {
    assert_eq!(join_path("/music", "a/b.mp3"), "/music/a/b.mp3");
    assert_eq!(join_path("/music/", "a"), "/music/a");
    assert_eq!(join_path("/music", "/abs"), "/abs");
    assert_eq!(join_path("", "a"), "a");
}

#[test]
fn paths_order_by_components() {
    assert!(path_less("/a/b", "/a-b"));
    assert!(!path_less("/a-b", "/a/b"));
    assert!(path_less("/a", "/a/b"));
    assert!(!path_less("/a", "/a"));
    assert_eq!(path_ordering("/x", "/x"), Ordering::Equal);
    assert_eq!(path_ordering("/x/y", "/x.y"), Ordering::Less);
    assert_eq!(path_ordering("/z", "/x"), Ordering::Greater);
    let mut v = vec!["/a-b", "/a/b", "/a", "/a/a"];
    v.sort_by(|a, b| path_ordering(a, b));
    let mut w: Vec<std::path::PathBuf> = v.iter().map(std::path::PathBuf::from).collect();
    w.sort();
    let w: Vec<String> = w.iter().map(|p| p.to_string_lossy().into_owned()).collect();
    assert_eq!(v, w);
}

#[test]
fn stripping_a_directory() {
    assert_eq!(strip_dir_prefix("/music", "/music/a/b.mp3"), Some("a/b.mp3".to_string()));
    assert_eq!(strip_dir_prefix("/music/", "/music/a"), Some("a".to_string()));
    assert_eq!(strip_dir_prefix("/music", "/music"), Some(String::new()));
    assert_eq!(strip_dir_prefix("/music", "/musical/a"), None);
    assert_eq!(strip_dir_prefix("/", "/a"), Some("a".to_string()));
    assert_eq!(trim_end_slashes("/a//"), "/a");
    assert_eq!(trim_end_slashes("/"), "/");
}

#[test]
fn parents_and_extensions() {
    assert!(is_in_dir("/music/a/1.mp3", "/music/a"));
    assert!(is_in_dir("/music/a/1.mp3", "/music/a/"));
    assert!(!is_in_dir("/music/a/b/1.mp3", "/music/a"));
    assert!(is_in_dir("/x", "/"));
    assert_eq!(file_extension("/m/song.mp3"), Some("mp3".to_string()));
    assert_eq!(file_extension("/m/archive.tar.gz"), Some("gz".to_string()));
    assert_eq!(file_extension("/m/.hidden"), None);
    assert_eq!(file_extension("/m/noext"), None);
    assert_eq!(file_extension("/m/dot."), Some(String::new()));
    let exts = musing::constants::default_allowed_exts();
    assert!(has_allowed_extension("/m/a.flac", &exts));
    assert!(!has_allowed_extension("/m/a.txt", &exts));
    assert!(!has_allowed_extension("/m/mp3", &exts));
}
