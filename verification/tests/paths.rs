use std::path::PathBuf;

use dotender::errors::Error;
use dotender::utils::{absolute_path, expand_home, join_parts};

#[test]
fn absolute_normalized_path_is_unchanged() {
    let r = absolute_path("/a/b", None, "/elsewhere").unwrap();
    assert_eq!(r, "/a/b");
}

#[test]
fn parent_segment_pops_the_component_before_it() {
    let with_parent = absolute_path("a/b/../c", None, "/w").unwrap();
    let without = absolute_path("a/c", None, "/w").unwrap();
    assert_eq!(with_parent, without);
    assert_eq!(with_parent, "/w/a/c");
}

#[test]
fn dot_and_empty_segments_are_dropped() {
    assert_eq!(absolute_path("./a.txt", None, "/w").unwrap(), "/w/a.txt");
    assert_eq!(absolute_path("/x//y/./z", None, "/w").unwrap(), "/x/y/z");
}

#[test]
fn relative_path_is_anchored_at_the_working_directory() {
    assert_eq!(absolute_path("d/e", None, "/base/dir").unwrap(), "/base/dir/d/e");
}

#[test]
fn resolving_above_the_root_fails() {
    match absolute_path("/..", None, "/w") {
        Err(Error::InvalidPath(p)) => assert_eq!(p, "/.."),
        _ => panic!("expected an invalid path error"),
    }
    assert!(matches!(absolute_path("../..", None, "/"), Err(Error::InvalidPath(_))));
}

#[test]
fn home_shorthand_is_expanded() {
    assert_eq!(absolute_path("~/x", Some("/home/u"), "/w").unwrap(), "/home/u/x");
}

#[test]
fn home_shorthand_without_home_is_an_error() {
    assert!(matches!(absolute_path("~/x", None, "/w"), Err(Error::Unexpected(_))));
}

#[test]
fn root_resolves_to_root() {
    assert_eq!(absolute_path("/", None, "/w").unwrap(), "/");
}

#[test]
fn expand_home_substitutes_only_the_shorthand() {
    assert_eq!(expand_home("~/cfg", Some("/home/u")).unwrap(), "/home/u/cfg");
    assert_eq!(expand_home("plain", None).unwrap(), "plain");
    assert!(expand_home("~/cfg", None).is_none());
}

#[test]
fn test_path_macro() {
    let p = PathBuf::from(join_parts(&vec![String::from("data"), String::from("name")]));
    assert_eq!(p, PathBuf::from("data/name"));
    let p = PathBuf::from(join_parts(&vec![String::from("data"), String::from("name")]));
    assert_eq!(p, PathBuf::from("data/name"));
    let p = PathBuf::from(join_parts(&vec![String::from("/data"), String::from("name")]));
    assert_eq!(p, PathBuf::from("/data/name"));
}
