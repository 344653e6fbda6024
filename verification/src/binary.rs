//! Binary detection: a file counts as binary when a zero byte occurs in the
//! bounded prefix that is inspected.

use vstd::prelude::*;

verus! {

/// How many bytes from the start of a file are inspected.
pub const SNIFF_LIMIT: usize = 1024;

/// The part of `bytes` that is inspected: at most the first `SNIFF_LIMIT` bytes.
pub open spec fn sniffed_prefix(bytes: Seq<u8>) -> Seq<u8> {
    if bytes.len() <= SNIFF_LIMIT {
        bytes
    } else {
        bytes.take(SNIFF_LIMIT as int)
    }
}

/// `bytes` holds a zero byte somewhere.
pub open spec fn has_zero_byte(bytes: Seq<u8>) -> bool {
    exists|i: int| 0 <= i < bytes.len() && bytes[i] == 0u8
}

/// A file that starts with `bytes` is binary: a zero byte lies within its
/// inspected prefix.
pub open spec fn is_binary_spec(bytes: Seq<u8>) -> bool {
    has_zero_byte(sniffed_prefix(bytes))
}

/// Classifies the start of a file. `bytes` holds what was read from the start
/// of the file; bytes beyond the first `SNIFF_LIMIT` are not looked at.
pub fn is_binary(bytes: &[u8]) -> (binary: bool)
    ensures
        binary == is_binary_spec(bytes@),
{
    let limit: usize = if bytes.len() <= SNIFF_LIMIT {
        bytes.len()
    } else {
        SNIFF_LIMIT
    };
    let mut i: usize = 0;
    while i < limit
        invariant
            0 <= i <= limit,
            limit == sniffed_prefix(bytes@).len(),
            limit <= bytes.len(),
            forall|j: int| 0 <= j < i ==> bytes@[j] != 0u8,
        decreases limit - i,
    {
        if bytes[i] == 0 {
            assert(sniffed_prefix(bytes@)[i as int] == 0u8);
            return true;
        }
        i += 1;
    }
    assert forall|j: int| 0 <= j < sniffed_prefix(bytes@).len() implies sniffed_prefix(
        bytes@,
    )[j] != 0u8 by {
        assert(sniffed_prefix(bytes@)[j] == bytes@[j]);
    }
    false
}

/// Whether a file is binary is settled by its first `SNIFF_LIMIT` bytes: two
/// byte strings that agree there are classified alike.
pub proof fn lemma_is_binary_depends_on_prefix_only(a: Seq<u8>, b: Seq<u8>)
    requires
        sniffed_prefix(a) == sniffed_prefix(b),
    ensures
        is_binary_spec(a) == is_binary_spec(b),
{
}

/// A zero byte at a position below `SNIFF_LIMIT` makes the file binary.
pub proof fn lemma_zero_byte_in_prefix_is_binary(bytes: Seq<u8>, at: int)
    requires
        0 <= at < bytes.len(),
        at < SNIFF_LIMIT,
        bytes[at] == 0u8,
    ensures
        is_binary_spec(bytes),
{
    assert(sniffed_prefix(bytes)[at] == 0u8);
}

} // verus!
