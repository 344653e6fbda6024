//! The framing of the output: a preamble, one frame for each file that is
//! kept, and an end marker.

use crate::normalize::{class_of, normalized, process_file_contents};
use vstd::prelude::*;
use vstd::string::StringExecFns;

verus! {

/// The instruction that opens the output where no preamble is given.
pub open spec fn default_instruction() -> Seq<char> {
    "Below is a repository containing files. Each file begins with @@@@<file-path>@@@@ followed by its content. The repository ends with @@@@END@@@@. After this marker, instructions related to the repository are provided."@
}

/// A marker line: `name` between two runs of four at signs, and a line
/// feed.
pub open spec fn marker_line(name: Seq<char>) -> Seq<char> {
    "@@@@"@ + name + "@@@@"@ + seq!['\n']
}

/// The start of the output: the preamble, or the default instruction where
/// there is none, and a line feed.
pub open spec fn preamble_text(preamble: Option<Seq<char>>) -> Seq<char> {
    match preamble {
        Some(text) => text + seq!['\n'],
        None => default_instruction() + seq!['\n'],
    }
}

/// The frame of one file: a marker line with its path, its normalized
/// content, and a line feed.
pub open spec fn frame_text(rel_path: Seq<char>, extension: Seq<char>, content: Seq<char>) -> Seq<
    char,
> {
    marker_line(rel_path) + normalized(class_of(extension), content) + seq!['\n']
}

/// The end of the output: the marker line with the name `END`.
pub open spec fn end_text() -> Seq<char> {
    marker_line("END"@)
}

/// Writes a marker line.
pub fn render_marker(name: &str) -> (out: String)
    ensures
        out@ == marker_line(name@),
{
    let mut out = "@@@@".to_owned();
    out.append(name);
    out.append("@@@@");
    out.push('\n');
    out
}

/// Writes the start of the output.
pub fn render_preamble(preamble: Option<&str>) -> (out: String)
    ensures
        out@ == preamble_text(
            match preamble {
                Some(text) => Some(text@),
                None => None,
            },
        ),
{
    let mut out = match preamble {
        Some(text) => text.to_owned(),
        None => "Below is a repository containing files. Each file begins with @@@@<file-path>@@@@ followed by its content. The repository ends with @@@@END@@@@. After this marker, instructions related to the repository are provided.".to_owned(),
    };
    out.push('\n');
    out
}

/// Writes the frame of a file from its relative path, its extension and
/// its whole text.
pub fn render_frame(rel_path: &str, extension: &str, content: &str) -> (out: String)
    ensures
        out@ == frame_text(rel_path@, extension@, content@),
{
    let mut out = render_marker(rel_path);
    let body = process_file_contents(extension, content);
    out.append(body.as_str());
    out.push('\n');
    out
}

/// Writes the end of the output.
pub fn render_end() -> (out: String)
    ensures
        out@ == end_text(),
{
    render_marker("END")
}

} // verus!
