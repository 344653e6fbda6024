use gprepo::path::{is_child_of, is_child_of_chars, is_under_any_prefix};

#[test]
fn a_file_below_the_directory_is_a_child() {
    assert!(is_child_of("src/main.rs", "src"));
}

#[test]
fn a_shared_start_of_the_name_is_not_enough() {
    assert!(!is_child_of("srcfoo/main.rs", "src"));
}

#[test]
fn a_trailing_slash_of_the_parent_does_not_count() {
    assert!(is_child_of("src", "src/"));
    assert!(is_child_of("src/main.rs", "src/"));
    assert!(is_child_of("src/main.rs", "src///"));
    assert!(!is_child_of("srcfoo", "src/"));
}

#[test]
fn a_path_is_a_child_of_itself() {
    assert!(is_child_of("src/main.rs", "src/main.rs"));
    assert!(is_child_of("a", "a"));
    assert!(is_child_of("", ""));
}

#[test]
fn the_parent_is_no_child_of_its_child() {
    assert!(!is_child_of("src", "src/main.rs"));
    assert!(!is_child_of("sr", "src"));
    assert!(!is_child_of("", "src"));
}

#[test]
fn deeper_paths_are_children_too() {
    assert!(is_child_of("a/b/c/d.txt", "a/b"));
    assert!(!is_child_of("a/bc/d.txt", "a/b"));
    assert!(!is_child_of("x/a/b", "a"));
}

#[test]
fn an_empty_parent_has_only_absolute_children() {
    assert!(!is_child_of("src/main.rs", ""));
    assert!(!is_child_of("src/main.rs", "/"));
    assert!(is_child_of("/etc", ""));
    assert!(is_child_of("/etc", "/"));
}

#[test]
fn a_trailing_slash_of_the_child_counts() {
    assert!(is_child_of("src/", "src"));
    assert!(!is_child_of("src", "src/x"));
}

#[test]
fn comparison_is_by_characters() {
    assert!(is_child_of("höhe/über.txt", "höhe"));
    assert!(!is_child_of("höher/über.txt", "höhe"));
    assert!(!is_child_of("Src/main.rs", "src"));
}

#[test]
fn is_child_of_agrees_with_the_standard_library() {
    let paths = ["", "/", "a", "a/", "a/b", "ab", "a//b", "src/main.rs", "srcfoo/main.rs", "src"];
    let parents = ["", "/", "//", "a", "a/", "a//", "a/b", "src", "src/", "s"];
    for child in paths {
        for parent in parents {
            let dir = parent.trim_end_matches('/');
            let expected = child.starts_with(dir)
                && (child.len() == dir.len() || child[dir.len()..].starts_with('/'));
            assert_eq!(is_child_of(child, parent), expected, "{:?} {:?}", child, parent);
        }
    }
}

#[test]
fn is_child_of_chars_works_on_characters() {
    let child: Vec<char> = "src/lib.rs".chars().collect();
    let parent: Vec<char> = "src/".chars().collect();
    let other: Vec<char> = "sr".chars().collect();
    assert!(is_child_of_chars(&child, &parent));
    assert!(!is_child_of_chars(&child, &other));
}

#[test]
fn is_under_any_prefix_tries_each_prefix() {
    let path: Vec<char> = "docs/readme.txt".chars().collect();
    let prefixes = vec!["src".to_string(), "docs".to_string()];
    assert!(is_under_any_prefix(&path, &prefixes));
    assert!(!is_under_any_prefix(&path, &vec!["src".to_string(), "doc".to_string()]));
    assert!(!is_under_any_prefix(&path, &Vec::new()));
}
