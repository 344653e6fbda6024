//! The selection pipeline: the chain of decisions by which a file system
//! entry is kept or skipped.
//!
//! The stages run in a fixed order, and the first that applies decides.
//! The early stages need only the entry's path. The later ones need facts
//! that the caller has to find out: whether version control ignores the
//! path, whether the entry is the output file, when it was last modified,
//! and how it starts. The pipeline asks for each of these when the stages
//! before it have let the entry pass, so that nothing is looked up in vain.

use crate::binary::{is_binary, is_binary_spec};
use crate::filter::{FilterSet, FilterSetView};
use vstd::prelude::*;

verus! {

/// A point in time: nanoseconds since the Unix epoch, negative before it.
#[derive(Clone, Copy, Debug, PartialEq, Eq, Structural)]
pub struct Timestamp {
    pub nanos: i128,
}

impl Timestamp {
    /// `self` is not earlier than `other`.
    pub open spec fn at_or_after(self, other: Timestamp) -> bool {
        self.nanos >= other.nanos
    }

    /// Tells whether `self` is not earlier than `other`.
    pub fn is_at_or_after(&self, other: &Timestamp) -> (later: bool)
        ensures
            later == self.at_or_after(*other),
    {
        self.nanos >= other.nanos
    }
}

/// When an entry was last modified, as far as the file system tells.
#[derive(Clone, Copy, Debug, PartialEq, Eq, Structural)]
pub enum ModifiedTime {
    /// The file system does not record it.
    Unavailable,
    /// The time of the last modification.
    At(Timestamp),
}

/// Why an entry is skipped. The variants stand in the order of the stages.
#[derive(Clone, Copy, Debug, PartialEq, Eq, Structural)]
pub enum SkipReason {
    /// The entry is no regular file.
    NotRegularFile,
    /// The path is, or lies below, an excluded prefix.
    ExcludedPrefix,
    /// Include prefixes were given, and the path lies below none of them.
    NotIncluded,
    /// An excluded glob pattern matches the path.
    ExcludedGlob,
    /// Version control ignores the path.
    Ignored,
    /// The entry is the file that the output is written to.
    OutputFile,
    /// The entry was modified when the run started, or later.
    ModifiedDuringRun,
    /// The file is binary.
    Binary,
}

/// A fact about an entry that the pipeline cannot find out by itself.
#[derive(Clone, Copy, Debug, PartialEq, Eq, Structural)]
pub enum Fact {
    /// Whether version control ignores the path.
    IgnoreStatus,
    /// Whether the entry is the file that the output is written to.
    OutputIdentity,
    /// When the entry was last modified.
    ModifiedTime,
    /// The first bytes of the file.
    FilePrefix,
}

/// What the pipeline says of an entry.
#[derive(Clone, Copy, Debug, PartialEq, Eq, Structural)]
pub enum Decision {
    /// The entry is not emitted.
    Skip(SkipReason),
    /// Nothing is decided yet: this fact is needed first.
    Need(Fact),
    /// The entry passed every stage: it is emitted.
    Keep,
}

/// What is known of an entry. The first two fields are known from the
/// start; each of the others is `None` until the caller has found it out.
pub struct EntryFacts {
    /// The entry is a regular file.
    pub is_file: bool,
    /// The path of the entry relative to the root, with forward slashes.
    pub rel_path: String,
    /// Whether version control ignores the path.
    pub ignored: Option<bool>,
    /// Whether the entry is the file that the output is written to.
    pub is_output: Option<bool>,
    /// When the entry was last modified.
    pub modified: Option<ModifiedTime>,
    /// The start of the file: all of it, or at least its first
    /// `SNIFF_LIMIT` bytes.
    pub prefix: Option<Vec<u8>>,
}

/// What is known of an entry, as mathematical values.
pub struct EntryFactsView {
    pub is_file: bool,
    pub rel_path: Seq<char>,
    pub ignored: Option<bool>,
    pub is_output: Option<bool>,
    pub modified: Option<ModifiedTime>,
    pub prefix: Option<Seq<u8>>,
}

impl View for EntryFacts {
    type V = EntryFactsView;

    open spec fn view(&self) -> EntryFactsView {
        EntryFactsView {
            is_file: self.is_file,
            rel_path: self.rel_path@,
            ignored: self.ignored,
            is_output: self.is_output,
            modified: self.modified,
            prefix: match self.prefix {
                Some(bytes) => Some(bytes@),
                None => None,
            },
        }
    }
}

impl EntryFacts {
    /// What is known of an entry when it is met: its kind and its path.
    pub fn new(is_file: bool, rel_path: String) -> (facts: EntryFacts)
        ensures
            facts@ == (EntryFactsView {
                is_file,
                rel_path: rel_path@,
                ignored: None,
                is_output: None,
                modified: None,
                prefix: None,
            }),
    {
        EntryFacts { is_file, rel_path, ignored: None, is_output: None, modified: None, prefix: None }
    }
}

/// The stages that need more than the path, in their order: ignore status,
/// output file, modification time, binary detection.
pub open spec fn decide_late_stages(started: Timestamp, facts: EntryFactsView) -> Decision {
    match facts.ignored {
        None => Decision::Need(Fact::IgnoreStatus),
        Some(true) => Decision::Skip(SkipReason::Ignored),
        Some(false) => match facts.is_output {
            None => Decision::Need(Fact::OutputIdentity),
            Some(true) => Decision::Skip(SkipReason::OutputFile),
            Some(false) => match facts.modified {
                None => Decision::Need(Fact::ModifiedTime),
                Some(ModifiedTime::At(time)) if time.at_or_after(started) => Decision::Skip(
                    SkipReason::ModifiedDuringRun,
                ),
                Some(_) => match facts.prefix {
                    None => Decision::Need(Fact::FilePrefix),
                    Some(bytes) => if is_binary_spec(bytes) {
                        Decision::Skip(SkipReason::Binary)
                    } else {
                        Decision::Keep
                    },
                },
            },
        },
    }
}

/// The decision of the pipeline for an entry of which `facts` is known,
/// where `glob_hit` tells whether an excluded glob pattern matches its
/// path. The stages run in their order, and the first that applies
/// decides.
pub open spec fn decide_spec(
    filters: FilterSetView,
    started: Timestamp,
    facts: EntryFactsView,
    glob_hit: bool,
) -> Decision {
    if !facts.is_file {
        Decision::Skip(SkipReason::NotRegularFile)
    } else if filters.excludes_by_prefix(facts.rel_path) {
        Decision::Skip(SkipReason::ExcludedPrefix)
    } else if !filters.includes(facts.rel_path) {
        Decision::Skip(SkipReason::NotIncluded)
    } else if glob_hit {
        Decision::Skip(SkipReason::ExcludedGlob)
    } else {
        decide_late_stages(started, facts)
    }
}

/// The selection pipeline of one run: its filters, and the time at which
/// the run started.
pub struct Pipeline {
    filters: FilterSet,
    started: Timestamp,
}

impl Pipeline {
    /// The filters of the run.
    pub closed spec fn filters(&self) -> FilterSetView {
        self.filters@
    }

    /// The time at which the run started.
    pub closed spec fn started(&self) -> Timestamp {
        self.started
    }

    /// The pipeline of a run with these filters that started at `started`.
    pub fn new(filters: FilterSet, started: Timestamp) -> (pipeline: Pipeline)
        ensures
            pipeline.filters() == filters@,
            pipeline.started() == started,
    {
        Pipeline { filters, started }
    }

    /// Decides the stages behind the glob patterns.
    fn decide_late(&self, facts: &EntryFacts) -> (decision: Decision)
        ensures
            decision == decide_late_stages(self.started(), facts@),
    {
        match facts.ignored {
            None => Decision::Need(Fact::IgnoreStatus),
            Some(true) => Decision::Skip(SkipReason::Ignored),
            Some(false) => match facts.is_output {
                None => Decision::Need(Fact::OutputIdentity),
                Some(true) => Decision::Skip(SkipReason::OutputFile),
                Some(false) => match facts.modified {
                    None => Decision::Need(Fact::ModifiedTime),
                    Some(modified) => {
                        let during_run = match modified {
                            ModifiedTime::At(time) => time.is_at_or_after(&self.started),
                            ModifiedTime::Unavailable => false,
                        };
                        if during_run {
                            Decision::Skip(SkipReason::ModifiedDuringRun)
                        } else {
                            match &facts.prefix {
                                None => Decision::Need(Fact::FilePrefix),
                                Some(bytes) => if is_binary(bytes.as_slice()) {
                                    Decision::Skip(SkipReason::Binary)
                                } else {
                                    Decision::Keep
                                },
                            }
                        }
                    },
                },
            },
        }
    }

    /// Decides on an entry, given whether an excluded glob pattern matches
    /// its path.
    pub fn decide_given_glob(&self, facts: &EntryFacts, glob_hit: bool) -> (decision: Decision)
        ensures
            decision == decide_spec(self.filters(), self.started(), facts@, glob_hit),
    {
        if !facts.is_file {
            Decision::Skip(SkipReason::NotRegularFile)
        } else if self.filters.excludes_by_prefix(facts.rel_path.as_str()) {
            Decision::Skip(SkipReason::ExcludedPrefix)
        } else if !self.filters.includes(facts.rel_path.as_str()) {
            Decision::Skip(SkipReason::NotIncluded)
        } else if glob_hit {
            Decision::Skip(SkipReason::ExcludedGlob)
        } else {
            self.decide_late(facts)
        }
    }

    /// Decides on an entry from what is known of it: to skip it, to keep
    /// it, or which fact is needed next. The glob patterns are matched
    /// only against a path that the prefixes let pass. What they say of a
    /// path is settled where neither they nor the path hold a backslash;
    /// elsewhere the decision is the one that belongs to the answer that
    /// `globset` gave.
    pub fn decide(&self, facts: &EntryFacts) -> (decision: Decision)
        ensures
            exists|glob_hit: bool|
                decision == decide_spec(self.filters(), self.started(), facts@, glob_hit),
            self.filters().glob_verdict_settled(facts@.rel_path) ==> decision == decide_spec(
                self.filters(),
                self.started(),
                facts@,
                self.filters().excludes_by_glob(facts@.rel_path),
            ),
    {
        let ghost any = true;
        if !facts.is_file {
            assert(Decision::Skip(SkipReason::NotRegularFile) == decide_spec(
                self.filters(),
                self.started(),
                facts@,
                any,
            ));
            Decision::Skip(SkipReason::NotRegularFile)
        } else if self.filters.excludes_by_prefix(facts.rel_path.as_str()) {
            assert(Decision::Skip(SkipReason::ExcludedPrefix) == decide_spec(
                self.filters(),
                self.started(),
                facts@,
                any,
            ));
            Decision::Skip(SkipReason::ExcludedPrefix)
        } else if !self.filters.includes(facts.rel_path.as_str()) {
            assert(Decision::Skip(SkipReason::NotIncluded) == decide_spec(
                self.filters(),
                self.started(),
                facts@,
                any,
            ));
            Decision::Skip(SkipReason::NotIncluded)
        } else if self.filters.excludes_by_glob(facts.rel_path.as_str()) {
            assert(Decision::Skip(SkipReason::ExcludedGlob) == decide_spec(
                self.filters(),
                self.started(),
                facts@,
                true,
            ));
            Decision::Skip(SkipReason::ExcludedGlob)
        } else {
            let decision = self.decide_late(facts);
            assert(decision == decide_spec(self.filters(), self.started(), facts@, false));
            decision
        }
    }
}

/// `more` holds what `less` holds of the same entry, and perhaps further
/// facts.
pub open spec fn knows_more(more: EntryFactsView, less: EntryFactsView) -> bool {
    &&& more.is_file == less.is_file
    &&& more.rel_path == less.rel_path
    &&& less.ignored is Some ==> more.ignored == less.ignored
    &&& less.is_output is Some ==> more.is_output == less.is_output
    &&& less.modified is Some ==> more.modified == less.modified
    &&& less.prefix is Some ==> more.prefix == less.prefix
}

/// An entry is kept if and only if it passed every stage: it is a regular
/// file, no prefix and no glob pattern excludes it, it is included,
/// version control does not ignore it, it is not the output file, it was
/// not modified since the run started, and it is not binary. Each of the
/// facts has to be known for that.
pub proof fn lemma_keep_iff_every_stage_passed(
    filters: FilterSetView,
    started: Timestamp,
    facts: EntryFactsView,
    glob_hit: bool,
)
    ensures
        decide_spec(filters, started, facts, glob_hit) == Decision::Keep <==> {
            &&& facts.is_file
            &&& !filters.excludes_by_prefix(facts.rel_path)
            &&& filters.includes(facts.rel_path)
            &&& !glob_hit
            &&& facts.ignored == Some(false)
            &&& facts.is_output == Some(false)
            &&& facts.modified matches Some(modified) && (modified matches ModifiedTime::At(time)
                ==> !time.at_or_after(started))
            &&& facts.prefix matches Some(bytes) && !is_binary_spec(bytes)
        },
{
}

/// A file with a zero byte among its first `SNIFF_LIMIT` bytes is never
/// kept, whatever the filters and the other facts are.
pub proof fn lemma_binary_file_is_never_kept(
    filters: FilterSetView,
    started: Timestamp,
    facts: EntryFactsView,
    glob_hit: bool,
    at: int,
)
    requires
        facts.prefix is Some,
        0 <= at < facts.prefix->0.len(),
        at < crate::binary::SNIFF_LIMIT,
        facts.prefix->0[at] == 0u8,
    ensures
        decide_spec(filters, started, facts, glob_hit) != Decision::Keep,
{
    crate::binary::lemma_zero_byte_in_prefix_is_binary(facts.prefix->0, at);
}

/// A file that was modified when the run started, or later, is never kept,
/// whatever the filters and the other facts are.
pub proof fn lemma_modified_during_run_is_never_kept(
    filters: FilterSetView,
    started: Timestamp,
    facts: EntryFactsView,
    glob_hit: bool,
    time: Timestamp,
)
    requires
        facts.modified == Some(ModifiedTime::At(time)),
        time.at_or_after(started),
    ensures
        decide_spec(filters, started, facts, glob_hit) != Decision::Keep,
{
}

/// The pipeline asks only for a fact that is not known yet, and only when
/// the facts of the stages before it are known.
pub proof fn lemma_needed_fact_is_unknown(
    filters: FilterSetView,
    started: Timestamp,
    facts: EntryFactsView,
    glob_hit: bool,
)
    ensures
        match decide_spec(filters, started, facts, glob_hit) {
            Decision::Need(Fact::IgnoreStatus) => facts.ignored is None,
            Decision::Need(Fact::OutputIdentity) => facts.ignored is Some && facts.is_output is None,
            Decision::Need(Fact::ModifiedTime) => facts.ignored is Some && facts.is_output is Some
                && facts.modified is None,
            Decision::Need(Fact::FilePrefix) => facts.ignored is Some && facts.is_output is Some
                && facts.modified is Some && facts.prefix is None,
            _ => true,
        },
{
}

/// Once all four facts are known, the entry is kept or skipped.
pub proof fn lemma_complete_facts_decide(
    filters: FilterSetView,
    started: Timestamp,
    facts: EntryFactsView,
    glob_hit: bool,
)
    requires
        facts.ignored is Some,
        facts.is_output is Some,
        facts.modified is Some,
        facts.prefix is Some,
    ensures
        !(decide_spec(filters, started, facts, glob_hit) is Need),
{
}

/// A decision to skip or to keep is final: no fact learnt later changes
/// it.
pub proof fn lemma_decision_is_final(
    filters: FilterSetView,
    started: Timestamp,
    less: EntryFactsView,
    more: EntryFactsView,
    glob_hit: bool,
)
    requires
        knows_more(more, less),
        !(decide_spec(filters, started, less, glob_hit) is Need),
    ensures
        decide_spec(filters, started, more, glob_hit) == decide_spec(
            filters,
            started,
            less,
            glob_hit,
        ),
{
}

} // verus!
