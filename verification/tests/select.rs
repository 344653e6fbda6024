use gprepo::filter::FilterSet;
use gprepo::select::{
    Decision, EntryFacts, Fact, ModifiedTime, Pipeline, SkipReason, Timestamp,
};

const STARTED: Timestamp = Timestamp { nanos: 1_000_000 };

const BEFORE: ModifiedTime = ModifiedTime::At(Timestamp { nanos: 999_999 });

fn owned(items: &[&str]) -> Vec<String> {
    items.iter().map(|s| s.to_string()).collect()
}

fn pipeline(excludes: &[&str], includes: &[&str]) -> Pipeline {
    Pipeline::new(FilterSet::new(owned(excludes), owned(includes)).unwrap(), STARTED)
}

/// What is known of a text file that nothing speaks against.
fn good_file(path: &str) -> EntryFacts {
    let mut facts = EntryFacts::new(true, path.to_string());
    facts.ignored = Some(false);
    facts.is_output = Some(false);
    facts.modified = Some(BEFORE);
    facts.prefix = Some(b"hello\n".to_vec());
    facts
}

/// Runs an entry through the pipeline as a caller does: answering each
/// question from `answers`, and recording the questions.
fn run(pipeline: &Pipeline, is_file: bool, path: &str, answers: &EntryFacts) -> (Decision, Vec<Fact>) {
    let mut facts = EntryFacts::new(is_file, path.to_string());
    let mut asked = Vec::new();
    loop {
        match pipeline.decide(&facts) {
            Decision::Need(fact) => {
                assert!(!asked.contains(&fact), "asked twice for {:?}", fact);
                asked.push(fact);
                match fact {
                    Fact::IgnoreStatus => facts.ignored = answers.ignored,
                    Fact::OutputIdentity => facts.is_output = answers.is_output,
                    Fact::ModifiedTime => facts.modified = answers.modified,
                    Fact::FilePrefix => facts.prefix = answers.prefix.clone(),
                }
            }
            decision => return (decision, asked),
        }
    }
}

#[test]
fn a_new_entry_knows_only_its_kind_and_path() {
    let facts = EntryFacts::new(true, "a.txt".to_string());
    assert!(facts.is_file);
    assert_eq!(facts.rel_path, "a.txt");
    assert_eq!(facts.ignored, None);
    assert_eq!(facts.is_output, None);
    assert_eq!(facts.modified, None);
    assert_eq!(facts.prefix, None);
}

#[test]
fn a_good_file_is_kept() {
    let p = pipeline(&[], &[]);
    assert_eq!(p.decide(&good_file("src/main.rs")), Decision::Keep);
    let (decision, asked) = run(&p, true, "src/main.rs", &good_file("src/main.rs"));
    assert_eq!(decision, Decision::Keep);
    assert_eq!(asked, vec![Fact::IgnoreStatus, Fact::OutputIdentity, Fact::ModifiedTime, Fact::FilePrefix]);
}

#[test]
fn what_is_no_regular_file_is_skipped_first() {
    let p = pipeline(&["src"], &["docs"]);
    let (decision, asked) = run(&p, false, "src", &good_file("src"));
    assert_eq!(decision, Decision::Skip(SkipReason::NotRegularFile));
    assert!(asked.is_empty());
}

#[test]
fn exclude_patterns_skip_by_prefix_and_by_glob() {
    let p = pipeline(&["*.lock", "build"], &[]);
    let (decision, asked) = run(&p, true, "build/output.txt", &good_file(""));
    assert_eq!(decision, Decision::Skip(SkipReason::ExcludedPrefix));
    assert!(asked.is_empty());
    let (decision, asked) = run(&p, true, "Cargo.lock", &good_file(""));
    assert_eq!(decision, Decision::Skip(SkipReason::ExcludedGlob));
    assert!(asked.is_empty());
    let (decision, _) = run(&p, true, "builder/output.txt", &good_file(""));
    assert_eq!(decision, Decision::Keep);
}

#[test]
fn include_prefixes_skip_what_lies_elsewhere() {
    let p = pipeline(&[], &["src"]);
    let (decision, asked) = run(&p, true, "docs/readme.txt", &good_file(""));
    assert_eq!(decision, Decision::Skip(SkipReason::NotIncluded));
    assert!(asked.is_empty());
    let (decision, _) = run(&p, true, "src/lib.rs", &good_file(""));
    assert_eq!(decision, Decision::Keep);
}

#[test]
fn exclusion_by_prefix_comes_before_inclusion() {
    let p = pipeline(&["src/gen"], &["src"]);
    let (decision, _) = run(&p, true, "src/gen/a.rs", &good_file(""));
    assert_eq!(decision, Decision::Skip(SkipReason::ExcludedPrefix));
    let (decision, _) = run(&p, true, "src/a.rs", &good_file(""));
    assert_eq!(decision, Decision::Keep);
}

#[test]
fn inclusion_comes_before_the_glob_patterns() {
    let p = pipeline(&[], &["src"]);
    let (decision, _) = run(&p, true, "Cargo.lock", &good_file(""));
    assert_eq!(decision, Decision::Skip(SkipReason::NotIncluded));
    let (decision, _) = run(&p, true, "src/Cargo.lock", &good_file(""));
    assert_eq!(decision, Decision::Skip(SkipReason::ExcludedGlob));
}

#[test]
fn an_ignored_path_is_skipped_before_anything_is_read() {
    let p = pipeline(&[], &[]);
    let mut answers = good_file("");
    answers.ignored = Some(true);
    let (decision, asked) = run(&p, true, "target/debug/app", &answers);
    assert_eq!(decision, Decision::Skip(SkipReason::Ignored));
    assert_eq!(asked, vec![Fact::IgnoreStatus]);
}

#[test]
fn the_output_file_is_skipped() {
    let p = pipeline(&[], &[]);
    let mut answers = good_file("");
    answers.is_output = Some(true);
    let (decision, asked) = run(&p, true, "out.txt", &answers);
    assert_eq!(decision, Decision::Skip(SkipReason::OutputFile));
    assert_eq!(asked, vec![Fact::IgnoreStatus, Fact::OutputIdentity]);
}

#[test]
fn a_file_modified_at_the_start_of_the_run_is_skipped() {
    let p = pipeline(&[], &[]);
    let mut answers = good_file("");
    answers.modified = Some(ModifiedTime::At(STARTED));
    let (decision, asked) = run(&p, true, "a.txt", &answers);
    assert_eq!(decision, Decision::Skip(SkipReason::ModifiedDuringRun));
    assert_eq!(asked, vec![Fact::IgnoreStatus, Fact::OutputIdentity, Fact::ModifiedTime]);
}

#[test]
fn a_file_modified_after_the_start_of_the_run_is_skipped() {
    let p = pipeline(&[], &[]);
    let mut answers = good_file("");
    answers.modified = Some(ModifiedTime::At(Timestamp { nanos: 1_000_001 }));
    let (decision, _) = run(&p, true, "a.txt", &answers);
    assert_eq!(decision, Decision::Skip(SkipReason::ModifiedDuringRun));
    answers.modified = Some(ModifiedTime::At(Timestamp { nanos: i128::MAX }));
    let (decision, _) = run(&p, true, "a.txt", &answers);
    assert_eq!(decision, Decision::Skip(SkipReason::ModifiedDuringRun));
}

#[test]
fn a_file_modified_just_before_the_start_is_kept() {
    let p = pipeline(&[], &[]);
    let (decision, _) = run(&p, true, "a.txt", &good_file(""));
    assert_eq!(decision, Decision::Keep);
    let mut answers = good_file("");
    answers.modified = Some(ModifiedTime::At(Timestamp { nanos: -5 }));
    let (decision, _) = run(&p, true, "a.txt", &answers);
    assert_eq!(decision, Decision::Keep);
}

#[test]
fn a_file_without_modification_time_passes_that_stage() {
    let p = pipeline(&[], &[]);
    let mut answers = good_file("");
    answers.modified = Some(ModifiedTime::Unavailable);
    let (decision, _) = run(&p, true, "a.txt", &answers);
    assert_eq!(decision, Decision::Keep);
}

#[test]
fn a_binary_file_is_skipped() {
    let p = pipeline(&[], &[]);
    let mut answers = good_file("");
    answers.prefix = Some(b"MZ\0\0".to_vec());
    let (decision, asked) = run(&p, true, "app.exe", &answers);
    assert_eq!(decision, Decision::Skip(SkipReason::Binary));
    assert_eq!(asked.len(), 4);
}

#[test]
fn a_zero_byte_in_the_first_1024_bytes_is_never_kept() {
    for (excludes, includes) in [(vec![], vec![]), (vec!["x"], vec![]), (vec![], vec!["src"])] {
        let p = pipeline(&excludes, &includes);
        for path in ["src/a.rs", "src/a.py", "src/a.txt", "src/a"] {
            for at in [0usize, 1, 500, 1023] {
                let mut bytes = vec![b'x'; 1024];
                bytes[at] = 0;
                let mut answers = good_file("");
                answers.prefix = Some(bytes);
                let (decision, _) = run(&p, true, path, &answers);
                assert_eq!(decision, Decision::Skip(SkipReason::Binary));
            }
        }
    }
}

#[test]
fn a_zero_byte_behind_the_first_1024_bytes_does_not_count() {
    let p = pipeline(&[], &[]);
    let mut bytes = vec![b'x'; 1100];
    bytes[1024] = 0;
    let mut answers = good_file("");
    answers.prefix = Some(bytes);
    let (decision, _) = run(&p, true, "a.txt", &answers);
    assert_eq!(decision, Decision::Keep);
}

#[test]
fn a_file_modified_during_the_run_is_never_kept() {
    for (excludes, includes) in [(vec![], vec![]), (vec!["x"], vec![]), (vec![], vec!["src"])] {
        let p = pipeline(&excludes, &includes);
        for path in ["src/a.rs", "docs/a.md", "x/y"] {
            let mut facts = good_file(path);
            facts.modified = Some(ModifiedTime::At(STARTED));
            assert_ne!(p.decide(&facts), Decision::Keep);
        }
    }
}

#[test]
fn facts_that_were_not_asked_for_do_not_change_the_order() {
    let p = pipeline(&[], &[]);
    // Everything is known, and every stage objects: the first one decides.
    let mut facts = EntryFacts::new(true, "Cargo.lock".to_string());
    facts.ignored = Some(true);
    facts.is_output = Some(true);
    facts.modified = Some(ModifiedTime::At(STARTED));
    facts.prefix = Some(vec![0]);
    assert_eq!(p.decide(&facts), Decision::Skip(SkipReason::ExcludedGlob));
    facts.rel_path = "a.txt".to_string();
    assert_eq!(p.decide(&facts), Decision::Skip(SkipReason::Ignored));
    facts.ignored = Some(false);
    assert_eq!(p.decide(&facts), Decision::Skip(SkipReason::OutputFile));
    facts.is_output = Some(false);
    assert_eq!(p.decide(&facts), Decision::Skip(SkipReason::ModifiedDuringRun));
    facts.modified = Some(BEFORE);
    assert_eq!(p.decide(&facts), Decision::Skip(SkipReason::Binary));
    facts.prefix = Some(vec![1]);
    assert_eq!(p.decide(&facts), Decision::Keep);
}

#[test]
fn a_later_fact_is_not_used_before_the_earlier_ones_are_known() {
    let p = pipeline(&[], &[]);
    let mut facts = EntryFacts::new(true, "a.txt".to_string());
    facts.prefix = Some(vec![0]);
    facts.modified = Some(ModifiedTime::At(STARTED));
    assert_eq!(p.decide(&facts), Decision::Need(Fact::IgnoreStatus));
    facts.ignored = Some(false);
    assert_eq!(p.decide(&facts), Decision::Need(Fact::OutputIdentity));
}

#[test]
fn decide_given_glob_takes_the_glob_verdict_as_given() {
    let p = pipeline(&["build"], &["src", "build"]);
    let facts = good_file("src/Cargo.lock");
    assert_eq!(p.decide_given_glob(&facts, false), Decision::Keep);
    assert_eq!(p.decide_given_glob(&facts, true), Decision::Skip(SkipReason::ExcludedGlob));
    assert_eq!(p.decide(&facts), Decision::Skip(SkipReason::ExcludedGlob));
    let facts = good_file("build/a.txt");
    assert_eq!(p.decide_given_glob(&facts, true), Decision::Skip(SkipReason::ExcludedPrefix));
    let facts = good_file("docs/a.txt");
    assert_eq!(p.decide_given_glob(&facts, true), Decision::Skip(SkipReason::NotIncluded));
    let facts = EntryFacts::new(false, "src".to_string());
    assert_eq!(p.decide_given_glob(&facts, true), Decision::Skip(SkipReason::NotRegularFile));
    let facts = EntryFacts::new(true, "src/a.rs".to_string());
    assert_eq!(p.decide_given_glob(&facts, false), Decision::Need(Fact::IgnoreStatus));
}

#[test]
fn timestamps_compare_by_their_nanoseconds() {
    let early = Timestamp { nanos: -1 };
    let late = Timestamp { nanos: 1 };
    assert!(late.is_at_or_after(&early));
    assert!(!early.is_at_or_after(&late));
    assert!(early.is_at_or_after(&early));
}
