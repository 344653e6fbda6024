use gprepo::filter::{default_exclude_globs, FilterSet};
use gprepo::glob::{GlobError, GlobFilter};

fn strings(items: &[&str]) -> Vec<String> {
    items.iter().map(|s| s.to_string()).collect()
}

#[test]
fn a_compiled_pattern_matches_paths() {
    let filter = GlobFilter::compile(&strings(&["*.lock"])).unwrap();
    assert!(filter.is_match("Cargo.lock"));
    assert!(filter.is_match("sub/dir/yarn.lock"));
    assert!(!filter.is_match("Cargo.toml"));
    assert!(!filter.is_match("*.lock.txt"));
}

#[test]
fn a_pattern_is_no_literal_text() {
    // The path that spells the pattern matches too, but so do others: the
    // pattern was parsed, not compared.
    let filter = GlobFilter::compile(&strings(&["a?c"])).unwrap();
    assert!(filter.is_match("abc"));
    assert!(filter.is_match("a?c"));
    assert!(!filter.is_match("ac"));
}

#[test]
fn an_empty_set_matches_nothing() {
    let filter = GlobFilter::compile(&Vec::new()).unwrap();
    assert!(!filter.is_match("anything"));
    assert!(!filter.is_match(""));
}

#[test]
fn any_pattern_of_the_set_may_match() {
    let filter = GlobFilter::compile(&strings(&["*.lock", "build", "docs/*.md"])).unwrap();
    assert!(filter.is_match("Cargo.lock"));
    assert!(filter.is_match("build"));
    assert!(filter.is_match("docs/intro.md"));
    assert!(!filter.is_match("build/output.txt"));
    assert!(!filter.is_match("src/intro.md"));
}

#[test]
fn each_added_pattern_is_in_the_set() {
    // The last pattern of a longer list is matched like the first.
    let filter = GlobFilter::compile(&strings(&["one", "two", "three", "four"])).unwrap();
    for path in ["one", "two", "three", "four"] {
        assert!(filter.is_match(path), "{}", path);
    }
    assert!(!filter.is_match("five"));
}

#[test]
fn an_invalid_pattern_is_reported_with_its_position() {
    let result = GlobFilter::compile(&strings(&["*.rs", "[abc", "ok"]));
    assert!(matches!(result, Err(GlobError::InvalidPattern(1))));
    let result = GlobFilter::compile(&strings(&["{a,b"]));
    assert!(matches!(result, Err(GlobError::InvalidPattern(0))));
}

#[test]
fn the_first_invalid_pattern_is_the_one_reported() {
    let result = GlobFilter::compile(&strings(&["ok", "[z-a]", "[abc", "}"]));
    assert!(matches!(result, Err(GlobError::InvalidPattern(1))));
}

#[test]
fn a_set_too_large_to_compile_is_reported() {
    // Each pattern is accepted by itself; the automaton for it is beyond
    // the size that the set is allowed.
    let huge = "[ab]".repeat(400_000);
    let result = GlobFilter::compile(&vec![huge]);
    assert!(matches!(result, Err(GlobError::SetNotCompiled)));
}

#[test]
fn the_default_patterns_are_the_eight_built_in_ones() {
    assert_eq!(
        default_exclude_globs(),
        strings(&[
            "*changelog*", "*CHANGELOG*", ".github*", ".gitignore", "gprepo", "*LICENSE*",
            "*.lock", "*README*",
        ])
    );
}

#[test]
fn the_default_patterns_compile() {
    assert!(GlobFilter::compile(&default_exclude_globs()).is_ok());
}

#[test]
fn the_default_patterns_exclude_what_they_name() {
    let filters = FilterSet::new(Vec::new(), Vec::new()).unwrap();
    for path in [
        "CHANGELOG.md",
        "docs/changelog.txt",
        ".github/workflows/ci.yml",
        ".gitignore",
        "gprepo",
        "LICENSE",
        "LICENSE-MIT",
        "Cargo.lock",
        "README.md",
        "sub/README",
    ] {
        assert!(filters.excludes_by_glob(path), "{}", path);
    }
    for path in ["src/main.rs", "Changelog.md", "readme.md", "license", "sub/.gitignore", "Cargo.toml"] {
        assert!(!filters.excludes_by_glob(path), "{}", path);
    }
}

#[test]
fn user_excludes_are_globs_as_well_as_prefixes() {
    let filters = FilterSet::new(strings(&["*.tmp", "build"]), Vec::new()).unwrap();
    assert!(filters.excludes_by_glob("a/b/c.tmp"));
    assert!(filters.excludes_by_glob("build"));
    assert!(!filters.excludes_by_glob("build/output.txt"));
    assert!(filters.excludes_by_prefix("build/output.txt"));
    assert!(filters.excludes_by_prefix("build"));
    assert!(!filters.excludes_by_prefix("a/b/c.tmp"));
    assert!(!filters.excludes_by_prefix("builder/output.txt"));
    // The defaults are still there behind the user's patterns.
    assert!(filters.excludes_by_glob("Cargo.lock"));
}

#[test]
fn an_invalid_user_exclude_fails_the_filter_set() {
    let result = FilterSet::new(strings(&["fine", "[oops"]), Vec::new());
    assert!(matches!(result, Err(GlobError::InvalidPattern(1))));
}

#[test]
fn without_include_prefixes_everything_is_included() {
    let filters = FilterSet::new(Vec::new(), Vec::new()).unwrap();
    assert!(filters.includes("docs/readme.txt"));
    assert!(filters.includes(""));
}

#[test]
fn with_include_prefixes_only_what_lies_below_them_is_included() {
    let filters = FilterSet::new(Vec::new(), strings(&["src", "docs/"])).unwrap();
    assert!(filters.includes("src/lib.rs"));
    assert!(filters.includes("docs/a.md"));
    assert!(filters.includes("src"));
    assert!(!filters.includes("srcfoo/lib.rs"));
    assert!(!filters.includes("tests/a.rs"));
}

#[test]
fn include_prefixes_are_no_globs() {
    let filters = FilterSet::new(Vec::new(), strings(&["*.rs"])).unwrap();
    assert!(!filters.includes("main.rs"));
    assert!(filters.includes("*.rs"));
    assert!(!filters.excludes_by_glob("main.rs"));
}

#[test]
fn a_built_set_becomes_a_filter() {
    let mut builder = globset::GlobSetBuilder::new();
    builder.add(globset::Glob::new("*.md").unwrap());
    let filter = GlobFilter::from_built(builder.build()).unwrap();
    assert!(filter.is_match("notes.md"));
    assert!(!filter.is_match("notes.txt"));
}

#[test]
fn a_failed_build_becomes_an_error() {
    let failure = globset::Glob::new("[").unwrap_err();
    assert!(matches!(GlobFilter::from_built(Err(failure)), Err(GlobError::SetNotCompiled)));
}
