use csfm::listing::build_listing;

#[test]
fn hidden_entries_excluded_by_default() {
    let rows = vec![
        ("/d/.secret".to_string(), false),
        ("/d/b.txt".to_string(), false),
        ("/d/A".to_string(), true),
    ];
    let out = build_listing(rows, false);
    assert_eq!(out.len(), 2);
    assert_eq!(out[0].name, "A");
    assert!(out[0].is_dir);
    assert_eq!(out[1].name, "b.txt");
    assert!(!out[1].is_dir);
}

#[test]
fn hidden_entries_included_on_request() {
    let rows = vec![
        ("/d/.secret".to_string(), false),
        ("/d/b.txt".to_string(), false),
        ("/d/A".to_string(), true),
    ];
    let out = build_listing(rows, true);
    assert_eq!(out.len(), 3);
    // the directory comes first; '.' sorts before 'b' within the files
    assert_eq!(out[0].name, "A");
    assert!(out[0].is_dir);
    assert_eq!(out[1].name, ".secret");
    assert_eq!(out[2].name, "b.txt");
}

#[test]
fn pseudo_entries_never_listed() {
    let rows = vec![
        ("/d/.".to_string(), false),
        ("/d/..".to_string(), true),
        ("/d/a".to_string(), false),
    ];
    let out = build_listing(rows, true);
    assert_eq!(out.len(), 1);
    assert_eq!(out[0].name, "a");
}

#[test]
fn directories_precede_files() {
    let rows = vec![
        ("/d/z.txt".to_string(), false),
        ("/d/a.txt".to_string(), false),
        ("/d/zdir".to_string(), true),
        ("/d/adir".to_string(), true),
    ];
    let out = build_listing(rows, false);
    assert_eq!(out.len(), 4);
    assert_eq!(out[0].name, "adir");
    assert_eq!(out[1].name, "zdir");
    assert_eq!(out[2].name, "a.txt");
    assert_eq!(out[3].name, "z.txt");
}

#[test]
fn names_sort_case_sensitively_by_code_point() {
    let rows = vec![("/d/a.txt".to_string(), false), ("/d/B.txt".to_string(), false)];
    let out = build_listing(rows, false);
    assert_eq!(out[0].name, "B.txt");
    assert_eq!(out[1].name, "a.txt");
}

#[test]
fn directory_precedes_file_of_equal_name() {
    let rows = vec![("/d/x".to_string(), false), ("/d/x".to_string(), true)];
    let out = build_listing(rows, false);
    assert!(out[0].is_dir);
    assert!(!out[1].is_dir);
}

#[test]
fn entries_without_a_derived_name_are_dropped() {
    let out = build_listing(vec![("/".to_string(), true)], true);
    assert!(out.is_empty());
}

#[test]
fn empty_directory_lists_empty() {
    let out = build_listing(vec![], true);
    assert!(out.is_empty());
}

#[test]
fn entries_keep_their_full_paths() {
    let rows = vec![("/d/A".to_string(), true), ("/d/b.txt".to_string(), false)];
    let out = build_listing(rows, false);
    assert_eq!(out[0].path, "/d/A");
    assert_eq!(out[1].path, "/d/b.txt");
}

#[test]
fn names_are_derived_from_paths_with_trailing_slash() {
    let out = build_listing(vec![("/d/sub/".to_string(), true)], false);
    assert_eq!(out.len(), 1);
    assert_eq!(out[0].name, "sub");
}
