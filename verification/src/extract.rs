//! Quote extraction: resolving the offsets of an index into the quotes of
//! its companion text file.
//!
//! In the text file every quote is followed by a separator line, which holds
//! the delimiter byte and a newline and nothing else. A quote therefore
//! starts at the beginning of the file or right behind a separator line, and
//! runs up to the next separator line, or to the end of the file where none
//! follows.

use crate::rot13::{rot13, rotated};
use crate::strfile::{flag_set, Flags, HeaderView, StrfileHeader};
use crate::text::{find_line_end, lemma_line_end, line_end, texts, NEWLINE};
use vstd::prelude::*;
use vstd::slice::{slice_subrange, slice_to_vec};

verus! {

/// What is wrong with an offset.
#[derive(Debug, Clone, Copy, PartialEq, Eq, Structural)]
pub enum OffsetFault {
    /// It points behind the end of the text.
    PastEnd,
    /// It points into the text, but not to where a quote starts.
    InsideQuote,
}

/// The first offset of an index that does not lead to a quote.
#[derive(Debug, Clone, Copy, PartialEq, Eq, Structural)]
pub struct ExtractError {
    /// Its place in the offset table.
    pub index: usize,
    pub fault: OffsetFault,
}

/// Whether `pos` is where a line starts: at the beginning of the text, or
/// behind a newline.
pub open spec fn is_line_start(text: Seq<u8>, pos: int) -> bool {
    pos == 0 || (0 < pos <= text.len() && text[pos - 1] == NEWLINE)
}

/// Whether the bytes at `pos` are the delimiter and a newline. At the start
/// of a line they are a separator line. A newline cannot serve as delimiter:
/// the line would end with it.
pub open spec fn is_separator(text: Seq<u8>, delim: u8, pos: int) -> bool {
    &&& delim != NEWLINE
    &&& 0 <= pos
    &&& pos + 2 <= text.len()
    &&& text[pos] == delim
    &&& text[pos + 1] == NEWLINE
}

/// Whether a quote starts at `pos`: at the beginning of the text, or right
/// behind a separator line.
pub open spec fn starts_quote(text: Seq<u8>, delim: u8, pos: int) -> bool {
    pos == 0 || (is_line_start(text, pos - 2) && is_separator(text, delim, pos - 2))
}

/// Whether `offset` leads to a quote of `text`, and if not, why.
pub open spec fn offset_fault(text: Seq<u8>, delim: u8, offset: u32) -> Option<OffsetFault> {
    if offset > text.len() {
        Some(OffsetFault::PastEnd)
    } else if !starts_quote(text, delim, offset as int) {
        Some(OffsetFault::InsideQuote)
    } else {
        None
    }
}

/// Where the quote ends whose current line starts at `pos`: at the start of
/// the first separator line from there on, or at the end of the text.
pub open spec fn quote_end(text: Seq<u8>, delim: u8, pos: int) -> int
    decreases text.len() - pos,
{
    if pos < 0 || pos >= text.len() {
        text.len() as int
    } else if is_separator(text, delim, pos) {
        pos
    } else {
        proof {
            lemma_line_end(text, pos);
        }
        quote_end(text, delim, line_end(text, pos))
    }
}

/// The quote that starts at `offset`, as it stands in the text.
pub open spec fn quote_at(text: Seq<u8>, delim: u8, offset: int) -> Seq<u8> {
    text.subrange(offset, quote_end(text, delim, offset))
}

/// The quote that the `i`-th offset of `h` leads to, rotated back where the
/// index says that the text is stored rotated.
pub open spec fn indexed_quote(h: HeaderView, text: Seq<u8>, i: int) -> Seq<u8> {
    let raw = quote_at(text, h.delim, h.offsets[i] as int);
    if flag_set(h.flags, Flags::Rotated) {
        rotated(raw)
    } else {
        raw
    }
}

/// The quotes that the offsets of `h` lead to, in table order.
pub open spec fn indexed_quotes(h: HeaderView, text: Seq<u8>) -> Seq<Seq<u8>> {
    Seq::new(h.offsets.len(), |i: int| indexed_quote(h, text, i))
}

/// Whether every offset of `h` leads to a quote of `text`.
pub open spec fn offsets_valid(h: HeaderView, text: Seq<u8>) -> bool {
    forall|i: int| 0 <= i < h.offsets.len() ==> offset_fault(text, h.delim, h.offsets[i]) is None
}

/// Tests one offset against the text.
pub fn check_offset(text: &[u8], delim: u8, offset: u32) -> (fault: Option<OffsetFault>)
    ensures
        fault == offset_fault(text@, delim, offset),
{
    let pos: usize = offset as usize;
    if pos > text.len() {
        Some(OffsetFault::PastEnd)
    } else if pos == 0 {
        None
    } else if pos >= 2 && delim != NEWLINE && text[pos - 2] == delim && text[pos - 1] == NEWLINE
        && (pos == 2 || text[pos - 3] == NEWLINE) {
        None
    } else {
        Some(OffsetFault::InsideQuote)
    }
}

/// Finds the end of the quote whose current line starts at `start`.
pub fn find_quote_end(text: &[u8], delim: u8, start: usize) -> (end: usize)
    requires
        start <= text.len(),
    ensures
        end == quote_end(text@, delim, start as int),
        start <= end <= text.len(),
{
    let mut pos: usize = start;
    while pos < text.len()
        invariant
            start <= pos <= text.len(),
            quote_end(text@, delim, start as int) == quote_end(text@, delim, pos as int),
        decreases text.len() - pos,
    {
        if delim != NEWLINE && text.len() - pos >= 2 && text[pos] == delim && text[pos + 1]
            == NEWLINE {
            return pos;
        }
        proof {
            lemma_line_end(text@, pos as int);
        }
        pos = find_line_end(text, pos);
    }
    pos
}

impl StrfileHeader {
    /// Extracts the quotes of the companion text file, one for each offset,
    /// in table order.
    ///
    /// An offset that points behind the end of the text, or to a place where
    /// no quote starts, fails the whole extraction: the error names the first
    /// such offset. A quote that no separator line follows runs to the end of
    /// the text. Where the index is flagged as rotated, each quote is rotated
    /// back.
    pub fn read_quotes(&self, text: &[u8]) -> (r: Result<Vec<Vec<u8>>, ExtractError>)
        ensures
            r is Ok <==> offsets_valid(self@, text@),
            r matches Ok(quotes) ==> quotes@.len() == self.offsets@.len() && texts(quotes@)
                == indexed_quotes(self@, text@),
            r matches Err(e) ==> {
                &&& e.index < self.offsets@.len()
                &&& offset_fault(text@, self.delim, self.offsets@[e.index as int]) == Some(e.fault)
                &&& forall|j: int|
                    0 <= j < e.index ==> offset_fault(text@, self.delim, self.offsets@[j]) is None
            },
    {
        let is_rotated = self.is_rotated();
        let mut quotes: Vec<Vec<u8>> = Vec::new();
        let mut i: usize = 0;
        while i < self.offsets.len()
            invariant
                i <= self.offsets@.len(),
                is_rotated == flag_set(self.flags, Flags::Rotated),
                quotes@.len() == i,
                forall|j: int|
                    0 <= j < i ==> offset_fault(text@, self.delim, self.offsets@[j]) is None,
                forall|j: int| 0 <= j < i ==> quotes@[j]@ == indexed_quote(self@, text@, j),
            decreases self.offsets@.len() - i,
        {
            let offset: u32 = self.offsets[i];
            match check_offset(text, self.delim, offset) {
                Some(fault) => {
                    return Err(ExtractError { index: i, fault });
                },
                None => {},
            }
            let start: usize = offset as usize;
            let end: usize = find_quote_end(text, self.delim, start);
            let raw = slice_subrange(text, start, end);
            let quote = if is_rotated {
                rot13(raw)
            } else {
                slice_to_vec(raw)
            };
            quotes.push(quote);
            i += 1;
        }
        assert(texts(quotes@) =~= indexed_quotes(self@, text@));
        Ok(quotes)
    }
}

/// Whether a separator line starts at `p`, for a reader that began to read
/// lines at `start`.
pub open spec fn separator_line_from(text: Seq<u8>, delim: u8, start: int, p: int) -> bool {
    &&& start <= p
    &&& (p == start || text[p - 1] == NEWLINE)
    &&& is_separator(text, delim, p)
}

/// A quote ends at the first separator line that follows its start, and at
/// the end of the text only where no separator line follows.
pub proof fn lemma_quote_ends_at_first_separator(text: Seq<u8>, delim: u8, start: int)
    requires
        0 <= start <= text.len(),
    ensures
        start <= quote_end(text, delim, start) <= text.len(),
        quote_end(text, delim, start) < text.len() ==> separator_line_from(
            text,
            delim,
            start,
            quote_end(text, delim, start),
        ),
        forall|p: int|
            separator_line_from(text, delim, start, p) ==> quote_end(text, delim, start) <= p,
    decreases text.len() - start,
{
    if start < text.len() && !is_separator(text, delim, start) {
        let next = line_end(text, start);
        lemma_line_end(text, start);
        lemma_quote_ends_at_first_separator(text, delim, next);
        assert forall|p: int| separator_line_from(text, delim, start, p) implies quote_end(
            text,
            delim,
            start,
        ) <= p by {
            assert(p > start);
            assert(p >= next);
            assert(separator_line_from(text, delim, next, p));
        }
    }
}

/// Extraction at the start of a quote gives exactly the quote: the text up
/// to the separator line that follows it, that line left out. Here the text
/// is `head`, then the quote `body`, its separator line and `tail`; the quote
/// holds no separator line of its own and, unless it is empty, ends with a
/// newline.
pub proof fn lemma_quote_before_separator(
    head: Seq<u8>,
    body: Seq<u8>,
    tail: Seq<u8>,
    delim: u8,
)
    requires
        delim != NEWLINE,
        body.len() == 0 || body.last() == NEWLINE,
        forall|p: int| !separator_line_from(body, delim, 0, p),
    ensures
        quote_at(head + body + seq![delim, NEWLINE] + tail, delim, head.len() as int) == body,
{
    let text = head + body + seq![delim, NEWLINE] + tail;
    let start = head.len() as int;
    let stop = start + body.len();
    let end = quote_end(text, delim, start);
    lemma_quote_ends_at_first_separator(text, delim, start);
    assert(separator_line_from(text, delim, start, stop));
    if end < stop {
        let p = end - start;
        assert(text[end] == body[p]);
        if p + 1 == body.len() {
            assert(body.last() == delim);
        } else {
            assert(text[end + 1] == body[p + 1]);
            if p > 0 {
                assert(text[end - 1] == body[p - 1]);
            }
            assert(separator_line_from(body, delim, 0, p));
        }
    }
    assert(text.subrange(start, stop) =~= body);
}

} // verus!
