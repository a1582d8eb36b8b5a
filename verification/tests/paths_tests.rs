use csfm::paths::name_of;
use csfm::paths::parent_of;

#[test]
fn parent_of_nested_path() {
    assert_eq!(parent_of("/home/user/docs"), "/home/user");
}

#[test]
fn parent_of_single_component() {
    assert_eq!(parent_of("/home"), "/");
}

#[test]
fn parent_of_root_is_root() {
    assert_eq!(parent_of("/"), "/");
}

#[test]
fn parent_of_root_twice_is_root() {
    assert_eq!(parent_of(&parent_of("/")), parent_of("/"));
}

#[test]
fn parent_ignores_trailing_slashes() {
    assert_eq!(parent_of("/home/user/"), "/home");
}

#[test]
fn parent_of_bare_name_is_root() {
    assert_eq!(parent_of("notes.txt"), "/");
}

#[test]
fn parent_of_empty_is_root() {
    assert_eq!(parent_of(""), "/");
}

#[test]
fn name_of_final_component() {
    assert_eq!(name_of("/home/user/notes.txt"), "notes.txt");
}

#[test]
fn name_of_ignores_trailing_slash() {
    assert_eq!(name_of("/home/user/"), "user");
}

#[test]
fn name_of_root_is_empty() {
    assert_eq!(name_of("/"), "");
}

#[test]
fn name_of_bare_name_is_itself() {
    assert_eq!(name_of("notes.txt"), "notes.txt");
}
