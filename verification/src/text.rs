//! Conversions between Rust strings and vectors of characters.
//!
//! The rest of the crate reasons about text as `Seq<char>`, the view that
//! `vstd` gives to `str` and `String`. Executable code reads a string once
//! into a `Vec<char>`, works by index, and builds a `String` again at the end.

use vstd::prelude::*;

verus! {

/// `String::push` appends one character to the end of the string.
pub assume_specification[ String::push ](s: &mut String, ch: char)
    ensures
        final(s)@ == old(s)@.push(ch),
;

/// Reads the characters of `s` into a vector, in order.
pub fn chars_of(s: &str) -> (out: Vec<char>)
    ensures
        out@ == s@,
{
    let mut out: Vec<char> = Vec::new();
    for c in it: s.chars()
        invariant
            out@ == it.seq().take(it.index() as int),
    {
        out.push(c);
    }
    out
}

/// Builds the string whose characters are those of `chars`, in order.
pub fn string_of(chars: &[char]) -> (out: String)
    ensures
        out@ == chars@,
{
    let mut out = String::new();
    let mut i: usize = 0;
    while i < chars.len()
        invariant
            0 <= i <= chars.len(),
            out@ == chars@.take(i as int),
        decreases chars.len() - i,
    {
        out.push(chars[i]);
        i += 1;
        assert(chars@.take(i as int) =~= chars@.take(i - 1).push(chars@[i - 1]));
    }
    assert(chars@.take(chars.len() as int) =~= chars@);
    out
}


/// Tells whether the string `s` and the characters `chars` spell the same text.
pub fn same_text(s: &str, chars: &[char]) -> (same: bool)
    ensures
        same == (s@ == chars@),
{
    let own = chars_of(s);
    if own.len() != chars.len() {
        return false;
    }
    let mut i: usize = 0;
    while i < own.len()
        invariant
            0 <= i <= own.len(),
            own.len() == chars.len(),
            own@ == s@,
            forall|j: int| 0 <= j < i ==> own@[j] == chars@[j],
        decreases own.len() - i,
    {
        if own[i] != chars[i] {
            return false;
        }
        i += 1;
    }
    assert(own@ =~= chars@);
    true
}

/// Tells whether `text` occurs among the strings of `table`.
pub fn table_contains(table: &[&str], text: &[char]) -> (found: bool)
    ensures
        found == exists|i: int| 0 <= i < table@.len() && (#[trigger] table@[i])@ == text@,
{
    let mut i: usize = 0;
    while i < table.len()
        invariant
            0 <= i <= table.len(),
            forall|j: int| 0 <= j < i ==> (#[trigger] table@[j])@ != text@,
        decreases table.len() - i,
    {
        if same_text(table[i], text) {
            return true;
        }
        i += 1;
    }
    false
}

} // verus!
