//! Content normalization: the text of a file is rewritten line by line, by a
//! rule chosen from the file's extension, and lines that come out empty are
//! dropped.

use crate::line::{
    four_spaces_at, indentation_end, is_whitespace, lemma_strip_indentation, lemma_tabify_length,
    lemma_tabify_leaves_no_four_spaces, push_tabified, push_verbatim, strip_indentation, tabify,
};
use crate::text::{chars_of, table_contains};
use vstd::prelude::*;

verus! {

/// How the lines of a file are rewritten.
#[derive(Clone, Copy, Debug, PartialEq, Eq, Structural)]
pub enum WhitespaceClass {
    /// Whitespace carries meaning: each run of four spaces becomes a tab.
    SignificantWhitespace,
    /// Indentation carries no meaning: leading whitespace is removed.
    NoIndentation,
    /// Any other extension: lines stay as they are.
    Unlisted,
}

/// The extensions of the languages in which whitespace is significant.
pub open spec fn significant_whitespace_extensions() -> Seq<Seq<char>> {
    seq![
        "py"@, "nim"@, "hs"@, "yml"@, "yaml"@, "coffee"@, "jade"@, "pug"@, "slim"@, "sass"@,
        "haml"@,
    ]
}

/// The extensions of the languages that can do without indentation.
pub open spec fn no_indentation_extensions() -> Seq<Seq<char>> {
    seq![
        "rs"@, "js"@, "jsx"@, "ts"@, "tsx"@, "c"@, "cpp"@, "h"@, "hpp"@, "java"@, "go"@, "cs"@,
        "rb"@, "php"@, "swift"@, "kt"@, "kts"@, "scala"@, "groovy"@, "fs"@, "fsx"@, "clj"@,
        "cljs"@, "edn"@, "lisp"@, "el"@, "scm"@, "ss"@, "rkt"@, "jl"@, "lua"@, "tcl"@, "pl"@,
        "pm"@, "elm"@, "erl"@, "hrl"@, "v"@, "sv"@, "svh"@, "html"@, "css"@, "scss"@, "less"@,
        "json"@, "xml"@, "sql"@, "md"@, "toml"@, "ini"@, "conf"@, "cfg"@, "sh"@, "bash"@, "zsh"@,
        "ps1"@, "awk"@, "sed"@,
    ]
}

/// The class of a file with the given extension. The extension is compared
/// as it stands, upper and lower case apart, and has no leading dot; a file
/// without extension has the empty one.
pub open spec fn class_of(extension: Seq<char>) -> WhitespaceClass {
    if significant_whitespace_extensions().contains(extension) {
        WhitespaceClass::SignificantWhitespace
    } else if no_indentation_extensions().contains(extension) {
        WhitespaceClass::NoIndentation
    } else {
        WhitespaceClass::Unlisted
    }
}

/// Finds the class of a file from its extension.
pub fn classify(extension: &str) -> (class: WhitespaceClass)
    ensures
        class == class_of(extension@),
{
    let ext = chars_of(extension);
    let significant: [&str; 11] = [
        "py", "nim", "hs", "yml", "yaml", "coffee", "jade", "pug", "slim", "sass", "haml",
    ];
    let plain: [&str; 58] = [
        "rs", "js", "jsx", "ts", "tsx", "c", "cpp", "h", "hpp", "java", "go", "cs", "rb", "php",
        "swift", "kt", "kts", "scala", "groovy", "fs", "fsx", "clj", "cljs", "edn", "lisp", "el",
        "scm", "ss", "rkt", "jl", "lua", "tcl", "pl", "pm", "elm", "erl", "hrl", "v", "sv", "svh",
        "html", "css", "scss", "less", "json", "xml", "sql", "md", "toml", "ini", "conf", "cfg",
        "sh", "bash", "zsh", "ps1", "awk", "sed",
    ];
    proof {
        assert(significant@.map_values(|s: &str| s@) =~= significant_whitespace_extensions());
        assert(plain@.map_values(|s: &str| s@) =~= no_indentation_extensions());
    }
    if table_contains(significant.as_slice(), ext.as_slice()) {
        WhitespaceClass::SignificantWhitespace
    } else if table_contains(plain.as_slice(), ext.as_slice()) {
        WhitespaceClass::NoIndentation
    } else {
        WhitespaceClass::Unlisted
    }
}

/// The position of the first line feed in `text`, or the length of `text`
/// where it holds none.
pub open spec fn first_newline(text: Seq<char>) -> int
    decreases text.len(),
{
    if text.len() == 0 || text[0] == '\n' {
        0
    } else {
        1 + first_newline(text.skip(1))
    }
}

/// `line` without one carriage return at its end.
pub open spec fn without_carriage_return(line: Seq<char>) -> Seq<char> {
    if line.len() > 0 && line.last() == '\r' {
        line.drop_last()
    } else {
        line
    }
}

/// The lines of `text`. A line ends with a line feed, or with a carriage
/// return directly followed by a line feed; the line ending is no part of
/// the line. What follows the last line feed is a line too, unless it is
/// empty; a carriage return at its end stays.
pub open spec fn split_lines(text: Seq<char>) -> Seq<Seq<char>>
    decreases text.len(),
    via split_lines_terminates
{
    if text.len() == 0 {
        Seq::empty()
    } else {
        let n = first_newline(text);
        if n < text.len() {
            seq![without_carriage_return(text.take(n))] + split_lines(text.skip(n + 1))
        } else {
            seq![text]
        }
    }
}

#[via_fn]
proof fn split_lines_terminates(text: Seq<char>) {
    lemma_first_newline(text);
}

/// One line, rewritten by the rule of `class`.
pub open spec fn rewrite_line(class: WhitespaceClass, line: Seq<char>) -> Seq<char> {
    match class {
        WhitespaceClass::SignificantWhitespace => tabify(line),
        WhitespaceClass::NoIndentation => strip_indentation(line),
        WhitespaceClass::Unlisted => line,
    }
}

/// The lines of the output: each of `lines` rewritten by the rule of
/// `class`, without those that come out empty, in their order.
pub open spec fn kept_lines(class: WhitespaceClass, lines: Seq<Seq<char>>) -> Seq<Seq<char>>
    decreases lines.len(),
{
    if lines.len() == 0 {
        Seq::empty()
    } else {
        let first = rewrite_line(class, lines[0]);
        let rest = kept_lines(class, lines.skip(1));
        if first.len() > 0 {
            seq![first] + rest
        } else {
            rest
        }
    }
}

/// `lines` written one after the other, each followed by a line feed.
pub open spec fn join_lines(lines: Seq<Seq<char>>) -> Seq<char>
    decreases lines.len(),
{
    if lines.len() == 0 {
        Seq::empty()
    } else {
        lines[0] + seq!['\n'] + join_lines(lines.skip(1))
    }
}

/// The lines that remain of `text` for a file of class `class`.
pub open spec fn normalized_lines(class: WhitespaceClass, text: Seq<char>) -> Seq<Seq<char>> {
    kept_lines(class, split_lines(text))
}

/// The normalized text of a file of class `class` that holds `text`.
pub open spec fn normalized(class: WhitespaceClass, text: Seq<char>) -> Seq<char> {
    join_lines(normalized_lines(class, text))
}

/// What one line contributes to the output: nothing where it comes out
/// empty, else the rewritten line and a line feed.
pub open spec fn emitted_line(class: WhitespaceClass, line: Seq<char>) -> Seq<char> {
    let out = rewrite_line(class, line);
    if out.len() > 0 {
        out + seq!['\n']
    } else {
        Seq::empty()
    }
}

/// `first_newline` is within the text, no line feed stands before it, and
/// one stands at it unless it is the end of the text.
pub proof fn lemma_first_newline(text: Seq<char>)
    ensures
        0 <= first_newline(text) <= text.len(),
        forall|j: int| 0 <= j < first_newline(text) ==> text[j] != '\n',
        first_newline(text) < text.len() ==> text[first_newline(text)] == '\n',
    decreases text.len(),
{
    if text.len() == 0 || text[0] == '\n' {
    } else {
        let rest = text.skip(1);
        lemma_first_newline(rest);
        assert forall|j: int| 0 <= j < first_newline(text) implies text[j] != '\n' by {
            if j > 0 {
                assert(text[j] == rest[j - 1]);
            }
        }
    }
}

/// The position that `lemma_first_newline` describes is the only one.
pub proof fn lemma_first_newline_at(text: Seq<char>, at: int)
    requires
        0 <= at <= text.len(),
        forall|j: int| 0 <= j < at ==> text[j] != '\n',
        at < text.len() ==> text[at] == '\n',
    ensures
        first_newline(text) == at,
    decreases text.len(),
{
    if at > 0 {
        let rest = text.skip(1);
        assert forall|j: int| 0 <= j < at - 1 implies rest[j] != '\n' by {
            assert(rest[j] == text[j + 1]);
        }
        lemma_first_newline_at(rest, at - 1);
    }
}

/// The output for a text is the output for its first line followed by the
/// output for the text behind that line.
pub proof fn lemma_normalized_unfold(class: WhitespaceClass, text: Seq<char>)
    requires
        text.len() > 0,
    ensures
        first_newline(text) < text.len() ==> normalized(class, text) == emitted_line(
            class,
            without_carriage_return(text.take(first_newline(text))),
        ) + normalized(class, text.skip(first_newline(text) + 1)),
        first_newline(text) >= text.len() ==> normalized(class, text) == emitted_line(class, text),
{
    let n = first_newline(text);
    if n < text.len() {
        let line = without_carriage_return(text.take(n));
        let rest = split_lines(text.skip(n + 1));
        let lines = seq![line] + rest;
        assert(lines.skip(1) =~= rest);
        let first = rewrite_line(class, line);
        if first.len() > 0 {
            let kept = seq![first] + kept_lines(class, rest);
            assert(kept.skip(1) =~= kept_lines(class, rest));
        } else {
            assert(Seq::<char>::empty() + normalized(class, text.skip(n + 1)) =~= normalized(
                class,
                text.skip(n + 1),
            ));
        }
    } else {
        reveal_with_fuel(kept_lines, 2);
        reveal_with_fuel(join_lines, 2);
        let lines = seq![text];
        assert(lines.skip(1) =~= Seq::<Seq<char>>::empty());
        let first = rewrite_line(class, text);
        if first.len() > 0 {
            let kept = seq![first] + kept_lines(class, lines.skip(1));
            assert(kept.skip(1) =~= Seq::<Seq<char>>::empty());
            assert(first + seq!['\n'] + Seq::<char>::empty() =~= first + seq!['\n']);
        }
    }
}

/// Appends to `out` what the line `text[start..end]` contributes to the
/// output of a file of class `class`.
fn push_line(out: &mut String, class: WhitespaceClass, text: &[char], start: usize, end: usize)
    requires
        start <= end <= text.len(),
    ensures
        final(out)@ == old(out)@ + emitted_line(class, text@.subrange(start as int, end as int)),
{
    let ghost line = text@.subrange(start as int, end as int);
    let ghost before = out@;
    match class {
        WhitespaceClass::SignificantWhitespace => {
            proof {
                lemma_tabify_length(line);
            }
            if start < end {
                push_tabified(out, text, start, end);
                out.push('\n');
                assert(out@ =~= before + (tabify(line) + seq!['\n']));
            } else {
                assert(before =~= before + Seq::<char>::empty());
            }
        },
        WhitespaceClass::NoIndentation => {
            let cut = indentation_end(text, start, end);
            if cut < end {
                push_verbatim(out, text, cut, end);
                out.push('\n');
                assert(out@ =~= before + (strip_indentation(line) + seq!['\n']));
            } else {
                assert(before =~= before + Seq::<char>::empty());
            }
        },
        WhitespaceClass::Unlisted => {
            if start < end {
                push_verbatim(out, text, start, end);
                out.push('\n');
                assert(out@ =~= before + (line + seq!['\n']));
            } else {
                assert(before =~= before + Seq::<char>::empty());
            }
        },
    }
}

/// Normalizes `text` by the rule of `class`.
pub fn normalize(class: WhitespaceClass, text: &[char]) -> (out: String)
    ensures
        out@ == normalized(class, text@),
{
    let mut out = String::new();
    let mut pos: usize = 0;
    assert(text@.skip(0) =~= text@);
    assert(out@ + normalized(class, text@) =~= normalized(class, text@));
    while pos < text.len()
        invariant
            0 <= pos <= text.len(),
            normalized(class, text@) == out@ + normalized(class, text@.skip(pos as int)),
        decreases text.len() - pos,
    {
        let ghost tail = text@.skip(pos as int);
        let ghost before = out@;
        let mut end: usize = pos;
        while end < text.len() && text[end] != '\n'
            invariant
                pos <= end <= text.len(),
                forall|j: int| pos <= j < end ==> text@[j] != '\n',
            decreases text.len() - end,
        {
            end += 1;
        }
        proof {
            assert forall|j: int| 0 <= j < end - pos implies tail[j] != '\n' by {
                assert(tail[j] == text@[pos + j]);
            }
            lemma_first_newline_at(tail, end - pos);
            lemma_normalized_unfold(class, tail);
        }
        if end < text.len() {
            let line_end: usize = if end > pos && text[end - 1] == '\r' {
                end - 1
            } else {
                end
            };
            push_line(&mut out, class, text, pos, line_end);
            proof {
                let raw = tail.take(end - pos);
                assert(raw =~= text@.subrange(pos as int, end as int));
                assert(without_carriage_return(raw) =~= text@.subrange(
                    pos as int,
                    line_end as int,
                ));
                assert(tail.skip(end - pos + 1) =~= text@.skip(end + 1));
                let piece = emitted_line(class, without_carriage_return(raw));
                assert(before + (piece + normalized(class, text@.skip(end + 1))) =~= before
                    + piece + normalized(class, text@.skip(end + 1)));
            }
            pos = end + 1;
        } else {
            push_line(&mut out, class, text, pos, end);
            proof {
                assert(tail =~= text@.subrange(pos as int, end as int));
                assert(text@.skip(end as int) =~= Seq::<char>::empty());
                assert(out@ + normalized(class, Seq::<char>::empty()) =~= out@);
            }
            pos = end;
        }
    }
    assert(text@.skip(pos as int) =~= Seq::<char>::empty());
    assert(out@ + normalized(class, Seq::<char>::empty()) =~= out@);
    out
}

/// A line begins at position `at` of `text`: at the start of the text, or
/// directly behind a line feed.
pub open spec fn is_line_start(text: Seq<char>, at: int) -> bool {
    0 <= at < text.len() && (at == 0 || text[at - 1] == '\n')
}

/// No line feed occurs in `line`.
pub open spec fn no_line_feed(line: Seq<char>) -> bool {
    forall|j: int| 0 <= j < line.len() ==> line[j] != '\n'
}

/// Each of `lines` holds at least one character and no line feed.
pub open spec fn proper_lines(lines: Seq<Seq<char>>) -> bool {
    forall|k: int| 0 <= k < lines.len() ==> (#[trigger] lines[k]).len() > 0 && no_line_feed(lines[k])
}

/// `tabify` brings no line feed into a line.
proof fn lemma_tabify_no_line_feed(line: Seq<char>)
    requires
        no_line_feed(line),
    ensures
        no_line_feed(tabify(line)),
    decreases line.len(),
{
    if line.len() == 0 {
    } else {
        let step: int = if four_spaces_at(line, 0) { 4 } else { 1 };
        let rest = line.skip(step);
        assert forall|j: int| 0 <= j < rest.len() implies rest[j] != '\n' by {
            assert(rest[j] == line[j + step]);
        }
        lemma_tabify_no_line_feed(rest);
        let out = tabify(line);
        assert forall|j: int| 0 <= j < out.len() implies out[j] != '\n' by {
            if j > 0 {
                assert(out[j] == tabify(rest)[j - 1]);
            }
        }
    }
}

/// Rewriting a line brings no line feed into it.
proof fn lemma_rewrite_no_line_feed(class: WhitespaceClass, line: Seq<char>)
    requires
        no_line_feed(line),
    ensures
        no_line_feed(rewrite_line(class, line)),
{
    match class {
        WhitespaceClass::SignificantWhitespace => {
            lemma_tabify_no_line_feed(line);
        },
        WhitespaceClass::NoIndentation => {
            let cut = lemma_strip_indentation(line);
        },
        WhitespaceClass::Unlisted => {},
    }
}

/// No line of a text holds a line feed.
pub proof fn lemma_split_lines_no_line_feed(text: Seq<char>)
    ensures
        forall|k: int| 0 <= k < split_lines(text).len() ==> no_line_feed(#[trigger] split_lines(text)[k]),
    decreases text.len(),
{
    if text.len() > 0 {
        lemma_first_newline(text);
        let n = first_newline(text);
        if n < text.len() {
            let rest = split_lines(text.skip(n + 1));
            lemma_split_lines_no_line_feed(text.skip(n + 1));
            let first = without_carriage_return(text.take(n));
            assert(no_line_feed(first));
            assert forall|k: int| 0 <= k < split_lines(text).len() implies no_line_feed(
                #[trigger] split_lines(text)[k],
            ) by {
                if k > 0 {
                    assert(split_lines(text)[k] == rest[k - 1]);
                }
            }
        }
    }
}

/// Lines are rewritten one by one, and what is kept stays in its order: the
/// lines kept of two lists, one behind the other, are those kept of the
/// first followed by those kept of the second.
pub proof fn lemma_kept_lines_concat(
    class: WhitespaceClass,
    front: Seq<Seq<char>>,
    back: Seq<Seq<char>>,
)
    ensures
        kept_lines(class, front + back) == kept_lines(class, front) + kept_lines(class, back),
    decreases front.len(),
{
    if front.len() == 0 {
        assert(front + back =~= back);
        assert(kept_lines(class, front) + kept_lines(class, back) =~= kept_lines(class, back));
    } else {
        let all = front + back;
        assert(all[0] == front[0]);
        assert(all.skip(1) =~= front.skip(1) + back);
        lemma_kept_lines_concat(class, front.skip(1), back);
        let first = rewrite_line(class, front[0]);
        if first.len() > 0 {
            assert(seq![first] + (kept_lines(class, front.skip(1)) + kept_lines(class, back))
                =~= (seq![first] + kept_lines(class, front.skip(1))) + kept_lines(class, back));
        }
    }
}

/// Of a single line its rewriting is kept, unless that is empty.
pub proof fn lemma_kept_lines_single(class: WhitespaceClass, line: Seq<char>)
    ensures
        rewrite_line(class, line).len() > 0 ==> kept_lines(class, seq![line]) == seq![
            rewrite_line(class, line),
        ],
        rewrite_line(class, line).len() == 0 ==> kept_lines(class, seq![line]) == Seq::<
            Seq<char>,
        >::empty(),
{
    reveal_with_fuel(kept_lines, 2);
    let lines = seq![line];
    assert(lines.skip(1) =~= Seq::<Seq<char>>::empty());
    let first = rewrite_line(class, line);
    assert(seq![first] + Seq::<Seq<char>>::empty() =~= seq![first]);
}

/// Joining two lists of lines, one behind the other, gives the two joined
/// texts one behind the other.
pub proof fn lemma_join_lines_concat(front: Seq<Seq<char>>, back: Seq<Seq<char>>)
    ensures
        join_lines(front + back) == join_lines(front) + join_lines(back),
    decreases front.len(),
{
    if front.len() == 0 {
        assert(front + back =~= back);
        assert(join_lines(front) + join_lines(back) =~= join_lines(back));
    } else {
        let all = front + back;
        assert(all[0] == front[0]);
        assert(all.skip(1) =~= front.skip(1) + back);
        lemma_join_lines_concat(front.skip(1), back);
        assert(front[0] + seq!['\n'] + (join_lines(front.skip(1)) + join_lines(back)) =~= (front[0]
            + seq!['\n'] + join_lines(front.skip(1))) + join_lines(back));
    }
}

/// No more lines are kept than there are, and each line that is kept has at
/// least one character and is the rewriting of a line of the input.
pub proof fn lemma_kept_lines(class: WhitespaceClass, lines: Seq<Seq<char>>)
    ensures
        kept_lines(class, lines).len() <= lines.len(),
        forall|k: int|
            0 <= k < kept_lines(class, lines).len() ==> (#[trigger] kept_lines(class, lines)[k]).len()
                > 0 && exists|i: int|
                0 <= i < lines.len() && kept_lines(class, lines)[k] == rewrite_line(
                    class,
                    #[trigger] lines[i],
                ),
    decreases lines.len(),
{
    if lines.len() > 0 {
        let rest = lines.skip(1);
        lemma_kept_lines(class, rest);
        let kept = kept_lines(class, lines);
        let first = rewrite_line(class, lines[0]);
        assert forall|k: int| 0 <= k < kept.len() implies (#[trigger] kept[k]).len() > 0 && exists|
            i: int,
        |
            0 <= i < lines.len() && kept[k] == rewrite_line(class, #[trigger] lines[i]) by {
            if first.len() > 0 && k == 0 {
                assert(kept[0] == rewrite_line(class, lines[0]));
            } else {
                let k2 = if first.len() > 0 { k - 1 } else { k };
                assert(kept[k] == kept_lines(class, rest)[k2]);
                let i = choose|i: int|
                    0 <= i < rest.len() && kept_lines(class, rest)[k2] == rewrite_line(
                        class,
                        #[trigger] rest[i],
                    );
                assert(rest[i] == lines[i + 1]);
            }
        }
    }
}

/// The lines that remain of a text are proper lines.
pub proof fn lemma_normalized_lines_proper(class: WhitespaceClass, text: Seq<char>)
    ensures
        proper_lines(normalized_lines(class, text)),
{
    let lines = split_lines(text);
    let kept = normalized_lines(class, text);
    lemma_split_lines_no_line_feed(text);
    lemma_kept_lines(class, lines);
    assert forall|k: int| 0 <= k < kept.len() implies (#[trigger] kept[k]).len() > 0
        && no_line_feed(kept[k]) by {
        let i = choose|i: int|
            0 <= i < lines.len() && kept[k] == rewrite_line(class, #[trigger] lines[i]);
        lemma_rewrite_no_line_feed(class, lines[i]);
    }
}

/// In a text joined from proper lines, each line start holds the first
/// character of one of the lines, and each run of four spaces lies within
/// one of them. The text is empty or ends with a line feed.
pub proof fn lemma_join_lines(lines: Seq<Seq<char>>)
    requires
        proper_lines(lines),
    ensures
        forall|at: int| #[trigger]
            is_line_start(join_lines(lines), at) ==> exists|k: int|
                0 <= k < lines.len() && join_lines(lines)[at] == (#[trigger] lines[k])[0],
        forall|at: int| #[trigger]
            four_spaces_at(join_lines(lines), at) ==> exists|k: int, off: int|
                0 <= k < lines.len() && #[trigger] four_spaces_at(lines[k], off),
        join_lines(lines).len() > 0 ==> join_lines(lines).last() == '\n',
        lines.len() > 0 ==> join_lines(lines).len() > 0,
    decreases lines.len(),
{
    if lines.len() > 0 {
        let first = lines[0];
        let rest = lines.skip(1);
        let out = join_lines(lines);
        let tail = join_lines(rest);
        let shift = first.len() + 1;
        assert(proper_lines(rest)) by {
            assert forall|k: int| 0 <= k < rest.len() implies (#[trigger] rest[k]).len() > 0
                && no_line_feed(rest[k]) by {
                assert(rest[k] == lines[k + 1]);
            }
        }
        lemma_join_lines(rest);
        assert(out =~= first + seq!['\n'] + tail);
        assert(out.len() == shift + tail.len());
        assert(forall|j: int| 0 <= j < first.len() ==> out[j] == first[j]);
        assert(out[first.len() as int] == '\n');
        assert(forall|j: int| shift <= j < out.len() ==> out[j] == tail[j - shift]);
        assert forall|at: int| #[trigger] is_line_start(out, at) implies exists|k: int|
            0 <= k < lines.len() && out[at] == (#[trigger] lines[k])[0] by {
            if at == 0 {
                assert(out[0] == lines[0][0]);
            } else if at < shift {
                // The character before `at` belongs to the first line, which
                // holds no line feed.
                assert(out[at - 1] == first[at - 1]);
                assert(false);
            } else {
                assert(is_line_start(tail, at - shift));
                let k = choose|k: int|
                    0 <= k < rest.len() && tail[at - shift] == (#[trigger] rest[k])[0];
                assert(rest[k] == lines[k + 1]);
            }
        }
        assert forall|at: int| #[trigger] four_spaces_at(out, at) implies exists|k: int, off: int|
            0 <= k < lines.len() && #[trigger] four_spaces_at(lines[k], off) by {
            if at + 4 <= first.len() {
                assert(four_spaces_at(lines[0], at));
            } else if at >= shift {
                assert(four_spaces_at(tail, at - shift));
                let (k, off) = choose|k: int, off: int|
                    0 <= k < rest.len() && #[trigger] four_spaces_at(rest[k], off);
                assert(rest[k] == lines[k + 1]);
                assert(four_spaces_at(lines[k + 1], off));
            } else {
                // The run would hold the line feed behind the first line.
                assert(out[first.len() as int] == ' ');
                assert(false);
            }
        }
    }
}

/// No line of the output is empty: where a line starts, a character other
/// than a line feed stands. The last line ends with a line feed like the
/// others.
pub proof fn lemma_output_has_no_empty_line(class: WhitespaceClass, text: Seq<char>)
    ensures
        forall|at: int| #[trigger]
            is_line_start(normalized(class, text), at) ==> normalized(class, text)[at] != '\n',
        normalized(class, text).len() > 0 ==> normalized(class, text).last() == '\n',
{
    let kept = normalized_lines(class, text);
    let out = normalized(class, text);
    lemma_normalized_lines_proper(class, text);
    lemma_join_lines(kept);
    assert forall|at: int| #[trigger] is_line_start(out, at) implies out[at] != '\n' by {
        let k = choose|k: int| 0 <= k < kept.len() && out[at] == (#[trigger] kept[k])[0];
        assert(no_line_feed(kept[k]));
    }
}

/// In the output for a file of the class without indentation no line
/// starts with whitespace.
pub proof fn lemma_no_indentation_output(text: Seq<char>)
    ensures
        forall|at: int| #[trigger]
            is_line_start(normalized(WhitespaceClass::NoIndentation, text), at) ==> !is_whitespace(
                normalized(WhitespaceClass::NoIndentation, text)[at],
            ),
{
    let class = WhitespaceClass::NoIndentation;
    let lines = split_lines(text);
    let kept = normalized_lines(class, text);
    let out = normalized(class, text);
    lemma_normalized_lines_proper(class, text);
    lemma_kept_lines(class, lines);
    lemma_join_lines(kept);
    assert forall|at: int| #[trigger] is_line_start(out, at) implies !is_whitespace(out[at]) by {
        let k = choose|k: int| 0 <= k < kept.len() && out[at] == (#[trigger] kept[k])[0];
        let i = choose|i: int|
            0 <= i < lines.len() && kept[k] == rewrite_line(class, #[trigger] lines[i]);
        let cut = lemma_strip_indentation(lines[i]);
        assert(kept[k][0] == lines[i][cut]);
    }
}

/// In the output for a file of the class with significant whitespace no run
/// of four spaces is left.
pub proof fn lemma_significant_whitespace_output(text: Seq<char>)
    ensures
        forall|at: int|
            !four_spaces_at(normalized(WhitespaceClass::SignificantWhitespace, text), at),
{
    let class = WhitespaceClass::SignificantWhitespace;
    let lines = split_lines(text);
    let kept = normalized_lines(class, text);
    let out = normalized(class, text);
    lemma_normalized_lines_proper(class, text);
    lemma_kept_lines(class, lines);
    lemma_join_lines(kept);
    assert forall|at: int| !four_spaces_at(out, at) by {
        if four_spaces_at(out, at) {
            let (k, off) = choose|k: int, off: int|
                0 <= k < kept.len() && #[trigger] four_spaces_at(kept[k], off);
            let i = choose|i: int|
                0 <= i < lines.len() && kept[k] == rewrite_line(class, #[trigger] lines[i]);
            lemma_tabify_leaves_no_four_spaces(lines[i]);
        }
    }
}

/// Normalizes the content of a file. `extension` is the file's extension
/// without the dot, empty where the file has none; `content` is the whole
/// text of the file.
///
/// Each line is rewritten by the rule for the class of the extension, lines
/// that come out empty are dropped, and each line that is kept is followed
/// by a line feed.
pub fn process_file_contents(extension: &str, content: &str) -> (out: String)
    ensures
        out@ == normalized(class_of(extension@), content@),
        forall|at: int| #[trigger] is_line_start(out@, at) ==> out@[at] != '\n',
        out@.len() > 0 ==> out@.last() == '\n',
        class_of(extension@) == WhitespaceClass::NoIndentation ==> forall|at: int| #[trigger]
            is_line_start(out@, at) ==> !is_whitespace(out@[at]),
        class_of(extension@) == WhitespaceClass::SignificantWhitespace ==> forall|at: int|
            !four_spaces_at(out@, at),
{
    let class = classify(extension);
    let text = chars_of(content);
    proof {
        lemma_output_has_no_empty_line(class, content@);
        lemma_no_indentation_output(content@);
        lemma_significant_whitespace_output(content@);
    }
    normalize(class, text.as_slice())
}

} // verus!
