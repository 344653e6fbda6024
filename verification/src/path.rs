//! Prefix filters: whether a relative path lies inside a given directory, or
//! is the given path itself.

use crate::text::chars_of;
use vstd::prelude::*;

verus! {

/// `path` without the slashes at its end.
pub open spec fn without_trailing_slashes(path: Seq<char>) -> Seq<char>
    decreases path.len(),
{
    if path.len() > 0 && path.last() == '/' {
        without_trailing_slashes(path.drop_last())
    } else {
        path
    }
}

/// `child` is `parent` or lies below it: with the slashes at the end of
/// `parent` taken off, `child` equals `parent`, or starts with `parent`
/// followed by a slash.
pub open spec fn is_child_of_spec(child: Seq<char>, parent: Seq<char>) -> bool {
    let dir = without_trailing_slashes(parent);
    child == dir || (dir + seq!['/']).is_prefix_of(child)
}

/// `path` is, or lies below, one of `prefixes`.
pub open spec fn is_under_any(path: Seq<char>, prefixes: Seq<Seq<char>>) -> bool {
    exists|i: int| 0 <= i < prefixes.len() && is_child_of_spec(path, #[trigger] prefixes[i])
}

/// What `without_trailing_slashes` returns: the start of the path up to its
/// last character that is no slash.
pub proof fn lemma_without_trailing_slashes(path: Seq<char>) -> (cut: int)
    ensures
        0 <= cut <= path.len(),
        without_trailing_slashes(path) == path.take(cut),
        forall|j: int| cut <= j < path.len() ==> path[j] == '/',
        cut > 0 ==> path[cut - 1] != '/',
    decreases path.len(),
{
    if path.len() > 0 && path.last() == '/' {
        let shorter = path.drop_last();
        let cut = lemma_without_trailing_slashes(shorter);
        assert(shorter.take(cut) =~= path.take(cut));
        assert forall|j: int| cut <= j < path.len() implies path[j] == '/' by {
            if j < shorter.len() {
                assert(path[j] == shorter[j]);
            }
        }
        cut
    } else {
        assert(path.take(path.len() as int) =~= path);
        path.len() as int
    }
}

/// The cut that `lemma_without_trailing_slashes` describes is the only one.
pub proof fn lemma_without_trailing_slashes_at(path: Seq<char>, cut: int)
    requires
        0 <= cut <= path.len(),
        forall|j: int| cut <= j < path.len() ==> path[j] == '/',
        cut > 0 ==> path[cut - 1] != '/',
    ensures
        without_trailing_slashes(path) == path.take(cut),
    decreases path.len(),
{
    if cut == path.len() {
        assert(path.take(cut) =~= path);
    } else {
        let shorter = path.drop_last();
        lemma_without_trailing_slashes_at(shorter, cut);
        assert(shorter.take(cut) =~= path.take(cut));
    }
}

/// A path is a child of itself, however many slashes are added to the
/// parent, unless the path itself ends with a slash.
pub proof fn lemma_is_child_of_itself(path: Seq<char>)
    requires
        path.len() == 0 || path.last() != '/',
    ensures
        is_child_of_spec(path, path),
        is_child_of_spec(path, path + seq!['/']),
{
    reveal_with_fuel(without_trailing_slashes, 2);
    let with_slash = path + seq!['/'];
    assert(with_slash.drop_last() =~= path);
}

/// A path below a directory is a child of it: `parent`, a slash and
/// anything behind it.
pub proof fn lemma_is_child_of_below(parent: Seq<char>, below: Seq<char>)
    requires
        parent.len() == 0 || parent.last() != '/',
    ensures
        is_child_of_spec(parent + seq!['/'] + below, parent),
{
    let child = parent + seq!['/'] + below;
    let dir = parent + seq!['/'];
    assert(child.subrange(0, dir.len() as int) =~= dir);
}

/// A path that only starts with the letters of a directory's name, with no
/// slash behind them, is no child of it.
pub proof fn lemma_is_child_of_needs_whole_segment(child: Seq<char>, parent: Seq<char>)
    requires
        parent.len() == 0 || parent.last() != '/',
        child.len() > parent.len(),
        child[parent.len() as int] != '/',
    ensures
        !is_child_of_spec(child, parent),
{
    let dir = parent + seq!['/'];
    if dir.is_prefix_of(child) {
        assert(child.subrange(0, dir.len() as int)[parent.len() as int] == dir[parent.len() as int]);
    }
}

/// Tells whether `child` is `parent` or lies below it, both given as
/// characters.
pub fn is_child_of_chars(child: &[char], parent: &[char]) -> (inside: bool)
    ensures
        inside == is_child_of_spec(child@, parent@),
{
    let mut cut: usize = parent.len();
    while cut > 0 && parent[cut - 1] == '/'
        invariant
            0 <= cut <= parent.len(),
            forall|j: int| cut <= j < parent.len() ==> parent@[j] == '/',
        decreases cut,
    {
        cut -= 1;
    }
    let ghost dir = parent@.take(cut as int);
    proof {
        lemma_without_trailing_slashes_at(parent@, cut as int);
    }
    if child.len() < cut {
        assert(!(dir + seq!['/']).is_prefix_of(child@));
        return false;
    }
    let mut i: usize = 0;
    while i < cut
        invariant
            0 <= i <= cut <= child.len(),
            cut <= parent.len(),
            dir == parent@.take(cut as int),
            dir == without_trailing_slashes(parent@),
            forall|j: int| 0 <= j < i ==> child@[j] == parent@[j],
        decreases cut - i,
    {
        if child[i] != parent[i] {
            proof {
                let with_slash = dir + seq!['/'];
                assert(dir[i as int] == parent@[i as int]);
                assert(with_slash[i as int] == dir[i as int]);
                if with_slash.is_prefix_of(child@) {
                    assert(child@.subrange(0, with_slash.len() as int)[i as int]
                        == child@[i as int]);
                }
            }
            return false;
        }
        i += 1;
    }
    proof {
        let with_slash = dir + seq!['/'];
        assert(child@.take(cut as int) =~= dir);
        if child.len() == cut {
            assert(child@ =~= dir);
        } else {
            if child@[cut as int] == '/' {
                assert(child@.subrange(0, with_slash.len() as int) =~= with_slash);
            } else {
                if with_slash.is_prefix_of(child@) {
                    assert(child@.subrange(0, with_slash.len() as int)[cut as int]
                        == with_slash[cut as int]);
                }
            }
        }
    }
    child.len() == cut || child[cut] == '/'
}

/// Tells whether `child` is `parent` or lies below it. Slashes at the end
/// of `parent` do not count.
pub fn is_child_of(child: &str, parent: &str) -> (inside: bool)
    ensures
        inside == is_child_of_spec(child@, parent@),
{
    let child_chars = chars_of(child);
    let parent_chars = chars_of(parent);
    is_child_of_chars(child_chars.as_slice(), parent_chars.as_slice())
}

/// Tells whether `path` is, or lies below, one of `prefixes`.
pub fn is_under_any_prefix(path: &[char], prefixes: &Vec<String>) -> (inside: bool)
    ensures
        inside == is_under_any(path@, prefixes.deep_view()),
{
    let mut i: usize = 0;
    while i < prefixes.len()
        invariant
            0 <= i <= prefixes.len(),
            forall|j: int| 0 <= j < i ==> !is_child_of_spec(path@, #[trigger] prefixes.deep_view()[j]),
        decreases prefixes.len() - i,
    {
        let prefix = chars_of(prefixes[i].as_str());
        assert(prefixes.deep_view()[i as int] == prefixes@[i as int]@);
        if is_child_of_chars(path, prefix.as_slice()) {
            return true;
        }
        i += 1;
    }
    false
}

} // verus!
