//! Concatenates the text files of a repository into one stream of framed
//! files, for a reader that takes a whole repository as its context.
//!
//! The library holds the decisions: which entries of the working tree are
//! kept (`select`, with the filters of `filter`, `path` and `glob` and the
//! binary detection of `binary`), how the text of a kept file is normalized
//! (`normalize`, `line`), and how the output is framed (`frame`). Walking
//! the tree, asking version control and reading files is left to the
//! caller, who hands over what it found as plain values.

pub mod binary;
pub mod filter;
pub mod frame;
pub mod glob;
pub mod line;
pub mod normalize;
pub mod path;
pub mod select;
pub mod text;
