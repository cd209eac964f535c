//! The line structure of a text file held as bytes.

use vstd::prelude::*;

verus! {

/// The byte that ends a line.
pub const NEWLINE: u8 = 0x0a;

/// The byte that may precede a newline and then belongs to the line ending.
pub const CARRIAGE_RETURN: u8 = 0x0d;

/// The byte strings that a vector of quotes holds.
pub open spec fn texts(quotes: Seq<Vec<u8>>) -> Seq<Seq<u8>> {
    Seq::new(quotes.len(), |i: int| quotes[i]@)
}

/// Where the line that starts at `pos` ends: just behind its newline, or at
/// the end of the text where no newline follows.
pub open spec fn line_end(text: Seq<u8>, pos: int) -> int
    decreases text.len() - pos,
{
    if pos < 0 || pos >= text.len() {
        text.len() as int
    } else if text[pos] == NEWLINE {
        pos + 1
    } else {
        line_end(text, pos + 1)
    }
}

/// A line is not empty, and holds no newline but as its last byte.
pub proof fn lemma_line_end(text: Seq<u8>, pos: int)
    requires
        0 <= pos < text.len(),
    ensures
        pos < line_end(text, pos) <= text.len(),
        forall|j: int| pos <= j < line_end(text, pos) - 1 ==> text[j] != NEWLINE,
        line_end(text, pos) < text.len() ==> text[line_end(text, pos) - 1] == NEWLINE,
    decreases text.len() - pos,
{
    if text[pos] != NEWLINE {
        if pos + 1 < text.len() {
            lemma_line_end(text, pos + 1);
        } else {
            assert(line_end(text, pos + 1) == text.len());
        }
    }
}

/// Finds the end of the line that starts at `pos`.
pub fn find_line_end(text: &[u8], pos: usize) -> (end: usize)
    requires
        pos <= text.len(),
    ensures
        end == line_end(text@, pos as int),
        pos <= end <= text.len(),
{
    let mut i: usize = pos;
    while i < text.len() && text[i] != NEWLINE
        invariant
            pos <= i <= text.len(),
            line_end(text@, pos as int) == line_end(text@, i as int),
        decreases text.len() - i,
    {
        i += 1;
    }
    if i < text.len() {
        i + 1
    } else {
        i
    }
}

} // verus!
