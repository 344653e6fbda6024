//! Glob filters: a set of shell-style patterns, compiled and matched by the
//! `globset` crate.
//!
//! `globset` is not verified here. This module declares its types, names
//! what its functions compute, and states what the rest of the crate relies
//! on. `globset` reads a backslash by the convention of the platform it is
//! built for (an escape character where the backslash is no path separator,
//! a separator elsewhere), so nothing is claimed for a pattern or a path
//! that holds one.

use globset::{Glob, GlobSet, GlobSetBuilder};
use vstd::prelude::*;

verus! {

/// `globset::Glob`: one parsed pattern.
#[verifier::external_type_specification]
#[verifier::external_body]
pub struct ExGlob(Glob);

/// `globset::GlobSetBuilder`: the patterns collected for a set.
#[verifier::external_type_specification]
#[verifier::external_body]
pub struct ExGlobSetBuilder(GlobSetBuilder);

/// `globset::GlobSet`: a compiled set of patterns.
#[verifier::external_type_specification]
#[verifier::external_body]
pub struct ExGlobSet(GlobSet);

/// `globset::Error`: why a pattern was not parsed, or a set not compiled.
#[verifier::external_type_specification]
#[verifier::external_body]
pub struct ExGlobError(globset::Error);

/// The text that a `Glob` was parsed from, which `Glob::glob` returns.
pub uninterp spec fn glob_text(glob: Glob) -> Seq<char>;

/// The texts of the patterns in a builder, in the order in which they were
/// added.
pub uninterp spec fn builder_patterns(builder: GlobSetBuilder) -> Seq<Seq<char>>;

/// The texts of the patterns in a compiled set, in the order in which they
/// were added to its builder.
pub uninterp spec fn set_patterns(set: GlobSet) -> Seq<Seq<char>>;

/// Whether `Glob::new` accepts `pattern`.
pub uninterp spec fn glob_is_valid(pattern: Seq<char>) -> bool;

/// Whether the glob parsed from `pattern` with the default options matches
/// `path`.
pub uninterp spec fn glob_matches(pattern: Seq<char>, path: Seq<char>) -> bool;

/// `text` holds no backslash.
pub open spec fn is_portable(text: Seq<char>) -> bool {
    forall|j: int| 0 <= j < text.len() ==> text[j] != '\\'
}

/// None of `texts` holds a backslash.
pub open spec fn all_portable(texts: Seq<Seq<char>>) -> bool {
    forall|i: int| 0 <= i < texts.len() ==> is_portable(#[trigger] texts[i])
}

/// Each of `patterns` is one that `Glob::new` accepts.
pub open spec fn all_valid(patterns: Seq<Seq<char>>) -> bool {
    forall|i: int| 0 <= i < patterns.len() ==> glob_is_valid(#[trigger] patterns[i])
}

/// Each of `patterns` that holds no backslash is one that `Glob::new`
/// accepts.
pub open spec fn all_valid_where_portable(patterns: Seq<Seq<char>>) -> bool {
    forall|i: int|
        0 <= i < patterns.len() && is_portable(#[trigger] patterns[i]) ==> glob_is_valid(
            patterns[i],
        )
}

/// One of `patterns` matches `path`.
pub open spec fn matches_any_glob(patterns: Seq<Seq<char>>, path: Seq<char>) -> bool {
    exists|i: int| 0 <= i < patterns.len() && glob_matches(#[trigger] patterns[i], path)
}

/// `Glob::new` parses a pattern with the default options. The glob that it
/// returns holds the text it was given. For a pattern without backslash,
/// whether it succeeds is settled by the pattern.
#[verifier::external_body]
fn parse_glob(pattern: &str) -> (parsed: Result<Glob, globset::Error>)
    ensures
        is_portable(pattern@) ==> (parsed is Ok <==> glob_is_valid(pattern@)),
        parsed matches Ok(glob) ==> glob_text(glob) == pattern@,
{
    Glob::new(pattern)
}

/// `GlobSetBuilder::new` returns a builder without patterns.
#[verifier::external_body]
fn new_builder() -> (builder: GlobSetBuilder)
    ensures
        builder_patterns(builder) == Seq::<Seq<char>>::empty(),
{
    GlobSetBuilder::new()
}

/// `GlobSetBuilder::add` puts a glob behind those that the builder holds.
#[verifier::external_body]
fn add_glob(builder: &mut GlobSetBuilder, glob: Glob)
    ensures
        builder_patterns(*final(builder)) == builder_patterns(*old(builder)).push(glob_text(glob)),
{
    builder.add(glob);
}

/// `GlobSetBuilder::build` compiles the patterns of a builder into a set,
/// which then holds the same patterns. It fails where the automaton for
/// the patterns grows beyond the size that `globset` allows; a builder
/// without patterns always gives a set.
#[verifier::external_body]
fn build_set(builder: &GlobSetBuilder) -> (built: Result<GlobSet, globset::Error>)
    ensures
        built matches Ok(set) ==> set_patterns(set) == builder_patterns(*builder),
        builder_patterns(*builder).len() == 0 ==> built is Ok,
{
    builder.build()
}

/// `GlobSet::is_match` tells whether any glob of the set matches the path.
/// This is claimed where neither the patterns nor the path hold a
/// backslash.
#[verifier::external_body]
fn set_is_match(set: &GlobSet, path: &str) -> (hit: bool)
    ensures
        all_portable(set_patterns(*set)) && is_portable(path@) ==> hit == (exists|i: int|
            0 <= i < set_patterns(*set).len() && glob_matches(#[trigger] set_patterns(*set)[i], path@)),
{
    set.is_match(path)
}

/// Why a set of patterns was not compiled.
#[derive(Clone, Copy, Debug, PartialEq, Eq, Structural)]
pub enum GlobError {
    /// The pattern at this position of the list was not accepted; those
    /// before it were.
    InvalidPattern(usize),
    /// Each pattern was accepted, but the set of them was not compiled.
    SetNotCompiled,
}

/// A compiled set of glob patterns.
pub struct GlobFilter {
    set: GlobSet,
}

impl GlobFilter {
    /// The texts of the patterns of the set, in their order.
    pub closed spec fn patterns(&self) -> Seq<Seq<char>> {
        set_patterns(self.set)
    }

    /// Compiles `patterns` into a set. The patterns are parsed in their
    /// order, and the first that is not accepted ends the work. Where each
    /// is accepted, `globset` compiles the set, or finds it too large.
    pub fn compile(patterns: &Vec<String>) -> (compiled: Result<GlobFilter, GlobError>)
        ensures
            match compiled {
                Ok(filter) => {
                    &&& filter.patterns() == patterns.deep_view()
                    &&& all_valid_where_portable(patterns.deep_view())
                },
                Err(GlobError::InvalidPattern(at)) => {
                    &&& at < patterns.len()
                    &&& is_portable(patterns.deep_view()[at as int]) ==> !glob_is_valid(
                        patterns.deep_view()[at as int],
                    )
                    &&& all_valid_where_portable(patterns.deep_view().take(at as int))
                },
                Err(GlobError::SetNotCompiled) => {
                    &&& patterns.len() > 0
                    &&& all_valid_where_portable(patterns.deep_view())
                },
            },
            all_portable(patterns.deep_view()) ==> (compiled is Err && compiled->Err_0
                is InvalidPattern <==> !all_valid(patterns.deep_view())),
            patterns.len() == 0 ==> compiled is Ok,
    {
        let ghost texts = patterns.deep_view();
        let mut builder = new_builder();
        let mut i: usize = 0;
        while i < patterns.len()
            invariant
                0 <= i <= patterns.len(),
                texts == patterns.deep_view(),
                builder_patterns(builder) == texts.take(i as int),
                all_valid_where_portable(texts.take(i as int)),
            decreases patterns.len() - i,
        {
            assert(texts[i as int] == patterns@[i as int]@);
            match parse_glob(patterns[i].as_str()) {
                Ok(glob) => {
                    add_glob(&mut builder, glob);
                },
                Err(_) => {
                    return Err(GlobError::InvalidPattern(i));
                },
            }
            assert(texts.take(i + 1) =~= texts.take(i as int).push(texts[i as int]));
            i += 1;
        }
        assert(texts.take(i as int) =~= texts);
        GlobFilter::from_built(build_set(&builder))
    }

    /// Takes what `GlobSetBuilder::build` returned: the set as a filter, or
    /// the failure as this crate's error.
    pub fn from_built(built: Result<GlobSet, globset::Error>) -> (filter: Result<
        GlobFilter,
        GlobError,
    >)
        ensures
            match built {
                Ok(set) => filter matches Ok(made) && made.patterns() == set_patterns(set),
                Err(_) => filter == Err::<GlobFilter, GlobError>(GlobError::SetNotCompiled),
            },
    {
        match built {
            Ok(set) => Ok(GlobFilter { set }),
            Err(_) => Err(GlobError::SetNotCompiled),
        }
    }

    /// Tells whether one of the patterns matches `path`.
    pub fn is_match(&self, path: &str) -> (hit: bool)
        ensures
            all_portable(self.patterns()) && is_portable(path@) ==> hit == matches_any_glob(
                self.patterns(),
                path@,
            ),
    {
        set_is_match(&self.set, path)
    }
}

} // verus!
