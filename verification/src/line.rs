//! Rewriting one line of text: turning runs of four spaces into tabs, and
//! removing indentation.

use vstd::prelude::*;

verus! {

/// The characters with the Unicode property `White_Space`.
pub open spec fn is_whitespace(c: char) -> bool {
    let u = c as u32;
    ||| 0x09 <= u <= 0x0D
    ||| u == 0x20
    ||| u == 0x85
    ||| u == 0xA0
    ||| u == 0x1680
    ||| 0x2000 <= u <= 0x200A
    ||| u == 0x2028
    ||| u == 0x2029
    ||| u == 0x202F
    ||| u == 0x205F
    ||| u == 0x3000
}

/// Tells whether `c` is a whitespace character.
pub fn char_is_whitespace(c: char) -> (b: bool)
    ensures
        b == is_whitespace(c),
{
    let u: u32 = c as u32;
    (0x09 <= u && u <= 0x0D) || u == 0x20 || u == 0x85 || u == 0xA0 || u == 0x1680 || (0x2000 <= u
        && u <= 0x200A) || u == 0x2028 || u == 0x2029 || u == 0x202F || u == 0x205F || u == 0x3000
}

/// Four space characters stand in `line` from position `at` on.
pub open spec fn four_spaces_at(line: Seq<char>, at: int) -> bool {
    &&& 0 <= at
    &&& at + 4 <= line.len()
    &&& line[at] == ' '
    &&& line[at + 1] == ' '
    &&& line[at + 2] == ' '
    &&& line[at + 3] == ' '
}

/// `line` with each run of four spaces replaced by one tab. Runs are taken
/// from left to right and do not overlap: after a replacement the search
/// goes on behind the four spaces that were replaced.
pub open spec fn tabify(line: Seq<char>) -> Seq<char>
    decreases line.len(),
{
    if line.len() == 0 {
        Seq::empty()
    } else if four_spaces_at(line, 0) {
        seq!['\t'] + tabify(line.skip(4))
    } else {
        seq![line[0]] + tabify(line.skip(1))
    }
}

/// `line` without its leading whitespace.
pub open spec fn strip_indentation(line: Seq<char>) -> Seq<char>
    decreases line.len(),
{
    if line.len() > 0 && is_whitespace(line[0]) {
        strip_indentation(line.skip(1))
    } else {
        line
    }
}

/// `tabify` never makes a line longer, and leaves an empty line empty and
/// no other.
pub proof fn lemma_tabify_length(line: Seq<char>)
    ensures
        tabify(line).len() == 0 <==> line.len() == 0,
        tabify(line).len() <= line.len(),
    decreases line.len(),
{
    if line.len() == 0 {
    } else if four_spaces_at(line, 0) {
        lemma_tabify_length(line.skip(4));
    } else {
        lemma_tabify_length(line.skip(1));
    }
}

/// After `tabify` no run of four spaces is left in the line.
pub proof fn lemma_tabify_leaves_no_four_spaces(line: Seq<char>)
    ensures
        forall|at: int| !four_spaces_at(tabify(line), at),
    decreases line.len(),
{
    let out = tabify(line);
    if line.len() == 0 {
    } else if four_spaces_at(line, 0) {
        let rest = tabify(line.skip(4));
        lemma_tabify_leaves_no_four_spaces(line.skip(4));
        assert forall|at: int| !four_spaces_at(out, at) by {
            if four_spaces_at(out, at) {
                assert(out[0] == '\t');
                assert(at >= 1);
                assert(out[at] == rest[at - 1]);
                assert(out[at + 1] == rest[at]);
                assert(out[at + 2] == rest[at + 1]);
                assert(out[at + 3] == rest[at + 2]);
                assert(four_spaces_at(rest, at - 1));
            }
        }
    } else {
        let rest = tabify(line.skip(1));
        lemma_tabify_leaves_no_four_spaces(line.skip(1));
        assert forall|at: int| !four_spaces_at(out, at) by {
            if four_spaces_at(out, at) {
                if at >= 1 {
                    assert(out[at] == rest[at - 1]);
                    assert(out[at + 1] == rest[at]);
                    assert(out[at + 2] == rest[at + 1]);
                    assert(out[at + 3] == rest[at + 2]);
                    assert(four_spaces_at(rest, at - 1));
                } else {
                    // The line starts with one, two or three spaces and then
                    // another character, which `tabify` keeps in place.
                    assert(out[0] == line[0]);
                    assert(out[1] == rest[0]);
                    assert(out[2] == rest[1]);
                    assert(out[3] == rest[2]);
                    lemma_tabify_keeps_short_run(line.skip(1));
                    assert(four_spaces_at(line, 0));
                }
            }
        }
    }
}

/// Where the output of `tabify` starts with three spaces, so does its input.
proof fn lemma_tabify_keeps_short_run(line: Seq<char>)
    ensures
        tabify(line).len() >= 1 && tabify(line)[0] == ' ' ==> line.len() >= 1 && line[0] == ' '
            && !four_spaces_at(line, 0),
        tabify(line).len() >= 2 && tabify(line)[0] == ' ' && tabify(line)[1] == ' '
            ==> line.len() >= 2 && line[1] == ' ',
        tabify(line).len() >= 3 && tabify(line)[0] == ' ' && tabify(line)[1] == ' ' && tabify(
            line,
        )[2] == ' ' ==> line.len() >= 3 && line[2] == ' ',
{
    if line.len() > 0 && !four_spaces_at(line, 0) {
        let l1 = line.skip(1);
        lemma_tabify_length(l1);
        if l1.len() > 0 && !four_spaces_at(l1, 0) {
            let l2 = l1.skip(1);
            lemma_tabify_length(l2);
            assert(l2 =~= line.skip(2));
            if l2.len() > 0 && !four_spaces_at(l2, 0) {
                assert(tabify(l2)[0] == l2[0]);
            }
            assert(tabify(l1)[0] == l1[0]);
            assert(tabify(l1) == seq![l1[0]] + tabify(l2));
        }
        assert(tabify(line) == seq![line[0]] + tabify(l1));
    }
}

/// A line without a run of four spaces is left as it is.
pub proof fn lemma_tabify_without_four_spaces(line: Seq<char>)
    requires
        forall|at: int| !four_spaces_at(line, at),
    ensures
        tabify(line) == line,
    decreases line.len(),
{
    if line.len() > 0 {
        assert(!four_spaces_at(line, 0));
        let rest = line.skip(1);
        assert forall|at: int| !four_spaces_at(rest, at) by {
            if four_spaces_at(rest, at) {
                assert(four_spaces_at(line, at + 1));
            }
        }
        lemma_tabify_without_four_spaces(rest);
        assert(seq![line[0]] + rest =~= line);
    } else {
        assert(line =~= Seq::empty());
    }
}

/// What `strip_indentation` returns: the line from its first character that
/// is no whitespace, or nothing where there is no such character.
pub proof fn lemma_strip_indentation(line: Seq<char>) -> (cut: int)
    ensures
        0 <= cut <= line.len(),
        forall|j: int| 0 <= j < cut ==> is_whitespace(#[trigger] line[j]),
        cut < line.len() ==> !is_whitespace(line[cut]),
        strip_indentation(line) == line.skip(cut),
    decreases line.len(),
{
    if line.len() > 0 && is_whitespace(line[0]) {
        let rest = line.skip(1);
        let c = lemma_strip_indentation(rest);
        assert(rest.skip(c) =~= line.skip(c + 1));
        assert forall|j: int| 0 <= j < c + 1 implies is_whitespace(#[trigger] line[j]) by {
            if j > 0 {
                assert(line[j] == rest[j - 1]);
            }
        }
        c + 1
    } else {
        assert(line.skip(0) =~= line);
        0
    }
}

/// The cut that `lemma_strip_indentation` describes is the only one: a line
/// cut behind a run of whitespace, at its end or before a character that is
/// no whitespace, is the line without its indentation.
pub proof fn lemma_strip_indentation_at(line: Seq<char>, cut: int)
    requires
        0 <= cut <= line.len(),
        forall|j: int| 0 <= j < cut ==> is_whitespace(#[trigger] line[j]),
        cut < line.len() ==> !is_whitespace(line[cut]),
    ensures
        strip_indentation(line) == line.skip(cut),
    decreases line.len(),
{
    if cut == 0 {
        assert(line.skip(0) =~= line);
    } else {
        let rest = line.skip(1);
        assert(is_whitespace(line[0]));
        assert forall|j: int| 0 <= j < cut - 1 implies is_whitespace(#[trigger] rest[j]) by {
            assert(rest[j] == line[j + 1]);
        }
        lemma_strip_indentation_at(rest, cut - 1);
        assert(rest.skip(cut - 1) =~= line.skip(cut));
    }
}

/// Appends `text[start..end]` to `out`.
pub fn push_verbatim(out: &mut String, text: &[char], start: usize, end: usize)
    requires
        start <= end <= text.len(),
    ensures
        final(out)@ == old(out)@ + text@.subrange(start as int, end as int),
{
    let mut i: usize = start;
    while i < end
        invariant
            start <= i <= end <= text.len(),
            out@ == old(out)@ + text@.subrange(start as int, i as int),
        decreases end - i,
    {
        out.push(text[i]);
        assert(text@.subrange(start as int, i + 1) =~= text@.subrange(start as int, i as int).push(
            text@[i as int],
        ));
        i += 1;
    }
}

/// Appends `text[start..end]` to `out`, with a tab for each run of four
/// spaces.
pub fn push_tabified(out: &mut String, text: &[char], start: usize, end: usize)
    requires
        start <= end <= text.len(),
    ensures
        final(out)@ == old(out)@ + tabify(text@.subrange(start as int, end as int)),
{
    let mut i: usize = start;
    assert(old(out)@ + Seq::<char>::empty() =~= old(out)@);
    while i < end
        invariant
            start <= i <= end <= text.len(),
            old(out)@ + tabify(text@.subrange(start as int, end as int)) == out@ + tabify(
                text@.subrange(i as int, end as int),
            ),
        decreases end - i,
    {
        let ghost rest = text@.subrange(i as int, end as int);
        let ghost before = out@;
        if end - i >= 4 && text[i] == ' ' && text[i + 1] == ' ' && text[i + 2] == ' ' && text[i
            + 3] == ' ' {
            out.push('\t');
            proof {
                assert(four_spaces_at(rest, 0));
                assert(rest.skip(4) =~= text@.subrange(i + 4, end as int));
                assert(before + (seq!['\t'] + tabify(rest.skip(4))) =~= before.push('\t') + tabify(
                    rest.skip(4),
                ));
            }
            i += 4;
        } else {
            out.push(text[i]);
            proof {
                assert(!four_spaces_at(rest, 0));
                assert(rest.skip(1) =~= text@.subrange(i + 1, end as int));
                assert(before + (seq![rest[0]] + tabify(rest.skip(1))) =~= before.push(rest[0])
                    + tabify(rest.skip(1)));
            }
            i += 1;
        }
    }
    assert(text@.subrange(end as int, end as int) =~= Seq::<char>::empty());
    assert(out@ + Seq::<char>::empty() =~= out@);
}

/// Finds where the indentation of `text[start..end]` ends: the position of
/// its first character that is no whitespace, or `end`.
pub fn indentation_end(text: &[char], start: usize, end: usize) -> (cut: usize)
    requires
        start <= end <= text.len(),
    ensures
        start <= cut <= end,
        forall|j: int| start <= j < cut ==> is_whitespace(#[trigger] text@[j]),
        cut < end ==> !is_whitespace(text@[cut as int]),
        strip_indentation(text@.subrange(start as int, end as int)) == text@.subrange(
            cut as int,
            end as int,
        ),
{
    let mut cut: usize = start;
    while cut < end && char_is_whitespace(text[cut])
        invariant
            start <= cut <= end <= text.len(),
            forall|j: int| start <= j < cut ==> is_whitespace(#[trigger] text@[j]),
        decreases end - cut,
    {
        cut += 1;
    }
    proof {
        let line = text@.subrange(start as int, end as int);
        assert forall|j: int| 0 <= j < cut - start implies is_whitespace(#[trigger] line[j]) by {
            assert(line[j] == text@[start + j]);
        }
        lemma_strip_indentation_at(line, cut - start);
        assert(line.skip(cut - start) =~= text@.subrange(cut as int, end as int));
    }
    cut
}

} // verus!
