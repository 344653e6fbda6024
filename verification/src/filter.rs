//! The filter set: the prefixes and glob patterns by which paths are
//! excluded or included. It is built once and only read afterwards.

use crate::glob::{
    all_portable, all_valid, all_valid_where_portable, glob_is_valid, is_portable,
    matches_any_glob, GlobError, GlobFilter,
};
use crate::path::{is_under_any, is_under_any_prefix};
use crate::text::chars_of;
use vstd::prelude::*;

verus! {

/// The glob patterns that are always excluded: change logs, the `.github`
/// directory, `.gitignore`, the program itself, licenses, lock files and
/// READMEs.
pub open spec fn default_exclude_patterns() -> Seq<Seq<char>> {
    seq![
        "*changelog*"@, "*CHANGELOG*"@, ".github*"@, ".gitignore"@, "gprepo"@, "*LICENSE*"@,
        "*.lock"@, "*README*"@,
    ]
}

/// The glob patterns that are always excluded.
pub fn default_exclude_globs() -> (patterns: Vec<String>)
    ensures
        patterns.deep_view() == default_exclude_patterns(),
{
    let mut patterns: Vec<String> = Vec::new();
    patterns.push("*changelog*".to_owned());
    patterns.push("*CHANGELOG*".to_owned());
    patterns.push(".github*".to_owned());
    patterns.push(".gitignore".to_owned());
    patterns.push("gprepo".to_owned());
    patterns.push("*LICENSE*".to_owned());
    patterns.push("*.lock".to_owned());
    patterns.push("*README*".to_owned());
    assert(patterns.deep_view() =~= default_exclude_patterns());
    patterns
}

/// None of the patterns that are always excluded holds a backslash.
pub proof fn lemma_default_patterns_portable()
    ensures
        all_portable(default_exclude_patterns()),
{
    reveal_strlit("*changelog*");
    reveal_strlit("*CHANGELOG*");
    reveal_strlit(".github*");
    reveal_strlit(".gitignore");
    reveal_strlit("gprepo");
    reveal_strlit("*LICENSE*");
    reveal_strlit("*.lock");
    reveal_strlit("*README*");
}

/// The glob patterns of a run in which the user excludes `excludes`: the
/// user's, then those that are always excluded.
pub open spec fn all_exclude_patterns(excludes: Seq<Seq<char>>) -> Seq<Seq<char>> {
    excludes + default_exclude_patterns()
}

/// The glob patterns of a run hold a backslash only where one of the
/// user's does.
pub proof fn lemma_exclude_patterns_portable(excludes: Seq<Seq<char>>)
    ensures
        all_portable(all_exclude_patterns(excludes)) == all_portable(excludes),
{
    lemma_default_patterns_portable();
    let all = all_exclude_patterns(excludes);
    if all_portable(excludes) {
        assert forall|k: int| 0 <= k < all.len() implies is_portable(#[trigger] all[k]) by {
            if k >= excludes.len() {
                assert(all[k] == default_exclude_patterns()[k - excludes.len()]);
            } else {
                assert(all[k] == excludes[k]);
            }
        }
    }
    if all_portable(all) {
        assert forall|k: int| 0 <= k < excludes.len() implies is_portable(
            #[trigger] excludes[k],
        ) by {
            assert(all[k] == excludes[k]);
        }
    }
}

/// What a filter set holds.
pub struct FilterSetView {
    /// A path that is, or lies below, one of these is excluded.
    pub exclude_prefixes: Seq<Seq<char>>,
    /// Where there are any, only a path that is, or lies below, one of
    /// these is included.
    pub include_prefixes: Seq<Seq<char>>,
    /// A path that one of these glob patterns matches is excluded.
    pub exclude_globs: Seq<Seq<char>>,
}

impl FilterSetView {
    /// `path` is excluded by a prefix.
    pub open spec fn excludes_by_prefix(self, path: Seq<char>) -> bool {
        is_under_any(path, self.exclude_prefixes)
    }

    /// `path` is included: no include prefix was given, or `path` is, or
    /// lies below, one of them.
    pub open spec fn includes(self, path: Seq<char>) -> bool {
        self.include_prefixes.len() == 0 || is_under_any(path, self.include_prefixes)
    }

    /// `path` is excluded by a glob pattern.
    pub open spec fn excludes_by_glob(self, path: Seq<char>) -> bool {
        matches_any_glob(self.exclude_globs, path)
    }

    /// Neither the glob patterns nor `path` hold a backslash, so that what
    /// the patterns say of `path` is settled.
    pub open spec fn glob_verdict_settled(self, path: Seq<char>) -> bool {
        all_portable(self.exclude_globs) && is_portable(path)
    }
}

/// The filters of one run.
pub struct FilterSet {
    exclude_prefixes: Vec<String>,
    include_prefixes: Vec<String>,
    exclude_globs: GlobFilter,
}

impl View for FilterSet {
    type V = FilterSetView;

    closed spec fn view(&self) -> FilterSetView {
        FilterSetView {
            exclude_prefixes: self.exclude_prefixes.deep_view(),
            include_prefixes: self.include_prefixes.deep_view(),
            exclude_globs: self.exclude_globs.patterns(),
        }
    }
}

impl FilterSet {
    /// Builds the filter set of a run from what the user asked to exclude
    /// and to include. Each exclude counts twice: as a prefix, and as a
    /// glob pattern. The patterns that are always excluded come behind the
    /// user's. The first pattern that is no valid glob fails the whole;
    /// where each is valid, `globset` compiles the set, or finds it too
    /// large.
    pub fn new(excludes: Vec<String>, includes: Vec<String>) -> (built: Result<
        FilterSet,
        GlobError,
    >)
        ensures
            match built {
                Ok(filters) => {
                    &&& filters@.exclude_prefixes == excludes.deep_view()
                    &&& filters@.include_prefixes == includes.deep_view()
                    &&& filters@.exclude_globs == all_exclude_patterns(excludes.deep_view())
                    &&& all_valid_where_portable(all_exclude_patterns(excludes.deep_view()))
                },
                Err(GlobError::InvalidPattern(at)) => {
                    let patterns = all_exclude_patterns(excludes.deep_view());
                    &&& at < patterns.len()
                    &&& is_portable(patterns[at as int]) ==> !glob_is_valid(patterns[at as int])
                    &&& all_valid_where_portable(patterns.take(at as int))
                },
                Err(GlobError::SetNotCompiled) => all_valid_where_portable(
                    all_exclude_patterns(excludes.deep_view()),
                ),
            },
            all_portable(excludes.deep_view()) ==> (built is Err && built->Err_0
                is InvalidPattern <==> !all_valid(all_exclude_patterns(excludes.deep_view()))),
    {
        let mut patterns: Vec<String> = Vec::new();
        let mut i: usize = 0;
        while i < excludes.len()
            invariant
                0 <= i <= excludes.len(),
                patterns.deep_view() == excludes.deep_view().take(i as int),
            decreases excludes.len() - i,
        {
            patterns.push(excludes[i].clone());
            assert(patterns.deep_view() =~= excludes.deep_view().take(i as int).push(
                excludes.deep_view()[i as int],
            ));
            assert(excludes.deep_view().take(i + 1) =~= excludes.deep_view().take(i as int).push(
                excludes.deep_view()[i as int],
            ));
            i += 1;
        }
        assert(excludes.deep_view().take(i as int) =~= excludes.deep_view());
        let mut defaults = default_exclude_globs();
        let ghost user = patterns.deep_view();
        patterns.append(&mut defaults);
        assert(patterns.deep_view() =~= user + default_exclude_patterns());
        proof {
            lemma_exclude_patterns_portable(excludes.deep_view());
        }
        match GlobFilter::compile(&patterns) {
            Ok(exclude_globs) => Ok(
                FilterSet { exclude_prefixes: excludes, include_prefixes: includes, exclude_globs },
            ),
            Err(error) => Err(error),
        }
    }

    /// Tells whether `path` is, or lies below, an excluded prefix.
    pub fn excludes_by_prefix(&self, path: &str) -> (excluded: bool)
        ensures
            excluded == self@.excludes_by_prefix(path@),
    {
        let chars = chars_of(path);
        is_under_any_prefix(chars.as_slice(), &self.exclude_prefixes)
    }

    /// Tells whether `path` is included: always where no include prefix was
    /// given, else where `path` is, or lies below, one of them.
    pub fn includes(&self, path: &str) -> (included: bool)
        ensures
            included == self@.includes(path@),
    {
        if self.include_prefixes.len() == 0 {
            return true;
        }
        let chars = chars_of(path);
        is_under_any_prefix(chars.as_slice(), &self.include_prefixes)
    }

    /// Tells whether one of the excluded glob patterns matches `path`.
    pub fn excludes_by_glob(&self, path: &str) -> (excluded: bool)
        ensures
            self@.glob_verdict_settled(path@) ==> excluded == self@.excludes_by_glob(path@),
    {
        self.exclude_globs.is_match(path)
    }
}

} // verus!
