//! The fallback format: a text file read without an index.
//!
//! The file is read line by line. A line that holds the single character `%`
//! closes the quote that the lines before it make up; every other line
//! belongs to the current quote, which keeps it with a newline behind it.
//! Lines behind the last `%` line make no quote.

use crate::text::{find_line_end, lemma_line_end, line_end, texts, CARRIAGE_RETURN, NEWLINE};
use vstd::prelude::*;
use vstd::slice::slice_subrange;

verus! {

/// The character `%`, which alone on a line closes a quote.
pub const TERMINATOR: u8 = 0x25;

/// Where the content of the line that starts at `pos` ends: before its
/// newline, and before the carriage return in front of that newline, if
/// there is one.
pub open spec fn content_end(text: Seq<u8>, pos: int) -> int {
    let end = line_end(text, pos);
    if pos < end && text[end - 1] == NEWLINE {
        if pos < end - 1 && text[end - 2] == CARRIAGE_RETURN {
            end - 2
        } else {
            end - 1
        }
    } else {
        end
    }
}

/// The line that starts at `pos`, without its line ending.
pub open spec fn line_content(text: Seq<u8>, pos: int) -> Seq<u8> {
    text.subrange(pos, content_end(text, pos))
}

/// The lines of `text` from `pos` on, each without its line ending.
pub open spec fn lines_from(text: Seq<u8>, pos: int) -> Seq<Seq<u8>>
    decreases text.len() - pos,
{
    if pos < 0 || pos >= text.len() {
        Seq::<Seq<u8>>::empty()
    } else {
        proof {
            lemma_line_end(text, pos);
        }
        seq![line_content(text, pos)] + lines_from(text, line_end(text, pos))
    }
}

/// Whether `line` closes a quote.
pub open spec fn is_terminator(line: Seq<u8>) -> bool {
    line.len() == 1 && line[0] == TERMINATOR
}

/// The quotes that `lines` complete, `current` being what the lines before
/// them have added to the quote that is still open.
pub open spec fn quotes_of(lines: Seq<Seq<u8>>, current: Seq<u8>) -> Seq<Seq<u8>>
    decreases lines.len(),
{
    if lines.len() == 0 {
        Seq::<Seq<u8>>::empty()
    } else if is_terminator(lines[0]) {
        seq![current] + quotes_of(lines.drop_first(), Seq::<u8>::empty())
    } else {
        quotes_of(lines.drop_first(), current + lines[0] + seq![NEWLINE])
    }
}

/// The quotes of a text in the fallback format.
pub open spec fn legacy_quotes(text: Seq<u8>) -> Seq<Seq<u8>> {
    quotes_of(lines_from(text, 0), Seq::<u8>::empty())
}

fn append_line(quote: &mut Vec<u8>, line: &[u8])
    ensures
        final(quote)@ == old(quote)@ + line@ + seq![NEWLINE],
{
    let mut i: usize = 0;
    while i < line.len()
        invariant
            i <= line.len(),
            quote@ == old(quote)@ + line@.subrange(0, i as int),
        decreases line.len() - i,
    {
        quote.push(line[i]);
        i += 1;
    }
    quote.push(NEWLINE);
    assert(line@.subrange(0, i as int) =~= line@);
}

/// Splits a text in the fallback format into its quotes.
///
/// A final quote that no `%` line closes is left out.
pub fn load_raw_quotes(text: &[u8]) -> (quotes: Vec<Vec<u8>>)
    ensures
        texts(quotes@) == legacy_quotes(text@),
{
    let mut quotes: Vec<Vec<u8>> = Vec::new();
    let mut quote: Vec<u8> = Vec::new();
    let mut pos: usize = 0;
    assert(texts(quotes@) =~= Seq::<Seq<u8>>::empty());
    while pos < text.len()
        invariant
            pos <= text.len(),
            legacy_quotes(text@) == texts(quotes@) + quotes_of(
                lines_from(text@, pos as int),
                quote@,
            ),
        decreases text.len() - pos,
    {
        proof {
            lemma_line_end(text@, pos as int);
        }
        let end: usize = find_line_end(text, pos);
        let mut stop: usize = end;
        if text[end - 1] == NEWLINE {
            stop = end - 1;
            if pos < stop && text[stop - 1] == CARRIAGE_RETURN {
                stop = stop - 1;
            }
        }
        let line = slice_subrange(text, pos, stop);
        let ghost lines = lines_from(text@, pos as int);
        let ghost done = texts(quotes@);
        let ghost open = quote@;
        assert(lines[0] == line@);
        assert(lines.drop_first() =~= lines_from(text@, end as int));
        if line.len() == 1 && line[0] == TERMINATOR {
            quotes.push(quote);
            quote = Vec::new();
            assert(texts(quotes@) =~= done + seq![open]);
        } else {
            append_line(&mut quote, line);
        }
        pos = end;
    }
    quotes
}

/// Whether none of `lines` closes a quote.
pub open spec fn no_terminator(lines: Seq<Seq<u8>>) -> bool {
    forall|i: int| 0 <= i < lines.len() ==> !is_terminator(#[trigger] lines[i])
}

proof fn lemma_open_lines_make_no_quote(lines: Seq<Seq<u8>>, current: Seq<u8>)
    requires
        no_terminator(lines),
    ensures
        quotes_of(lines, current) == Seq::<Seq<u8>>::empty(),
    decreases lines.len(),
{
    if lines.len() > 0 {
        assert(!is_terminator(lines[0]));
        let rest = lines.drop_first();
        assert forall|i: int| 0 <= i < rest.len() implies !is_terminator(#[trigger] rest[i]) by {
            assert(rest[i] == lines[i + 1]);
        }
        lemma_open_lines_make_no_quote(rest, current + lines[0] + seq![NEWLINE]);
    }
}

proof fn lemma_open_lines_appended(a: Seq<Seq<u8>>, b: Seq<Seq<u8>>, current: Seq<u8>)
    requires
        no_terminator(b),
    ensures
        quotes_of(a + b, current) == quotes_of(a, current),
    decreases a.len(),
{
    if a.len() == 0 {
        assert(a + b =~= b);
        lemma_open_lines_make_no_quote(b, current);
    } else {
        assert((a + b)[0] == a[0]);
        assert((a + b).drop_first() =~= a.drop_first() + b);
        if is_terminator(a[0]) {
            lemma_open_lines_appended(a.drop_first(), b, Seq::<u8>::empty());
        } else {
            lemma_open_lines_appended(a.drop_first(), b, current + a[0] + seq![NEWLINE]);
        }
    }
}

proof fn lemma_line_end_behind(a: Seq<u8>, b: Seq<u8>, q: int)
    requires
        0 <= q <= b.len(),
    ensures
        line_end(a + b, a.len() + q) == a.len() + line_end(b, q),
    decreases b.len() - q,
{
    if q < b.len() {
        assert((a + b)[a.len() + q] == b[q]);
        if b[q] != NEWLINE {
            lemma_line_end_behind(a, b, q + 1);
        }
    }
}

proof fn lemma_lines_behind(a: Seq<u8>, b: Seq<u8>, q: int)
    requires
        0 <= q <= b.len(),
    ensures
        lines_from(a + b, a.len() + q) == lines_from(b, q),
    decreases b.len() - q,
{
    if q < b.len() {
        lemma_line_end(b, q);
        lemma_line_end_behind(a, b, q);
        let end = line_end(b, q);
        assert((a + b)[a.len() + end - 1] == b[end - 1]);
        if q < end - 1 {
            assert((a + b)[a.len() + end - 2] == b[end - 2]);
        }
        assert(line_content(a + b, a.len() + q) =~= line_content(b, q));
        lemma_lines_behind(a, b, end);
    }
}

proof fn lemma_line_end_within(a: Seq<u8>, b: Seq<u8>, pos: int)
    requires
        0 <= pos < a.len(),
        a.last() == NEWLINE,
    ensures
        line_end(a + b, pos) == line_end(a, pos),
    decreases a.len() - pos,
{
    assert((a + b)[pos] == a[pos]);
    if a[pos] != NEWLINE {
        lemma_line_end_within(a, b, pos + 1);
    }
}

proof fn lemma_lines_within(a: Seq<u8>, b: Seq<u8>, pos: int)
    requires
        a.len() == 0 || a.last() == NEWLINE,
        0 <= pos <= a.len(),
    ensures
        lines_from(a + b, pos) == lines_from(a, pos) + lines_from(b, 0),
    decreases a.len() - pos,
{
    if pos == a.len() {
        lemma_lines_behind(a, b, 0);
        assert(lines_from(a, pos) + lines_from(b, 0) =~= lines_from(b, 0));
    } else {
        lemma_line_end(a, pos);
        lemma_line_end_within(a, b, pos);
        let end = line_end(a, pos);
        assert((a + b)[end - 1] == a[end - 1]);
        if pos < end - 1 {
            assert((a + b)[end - 2] == a[end - 2]);
        }
        assert(line_content(a + b, pos) =~= line_content(a, pos));
        lemma_lines_within(a, b, end);
        assert(lines_from(a + b, pos) =~= lines_from(a, pos) + lines_from(b, 0));
    }
}

/// What follows the last `%` line makes no quote: lines without a `%` line
/// among them, added behind a text that ends with a line ending or is empty,
/// leave its quotes as they are.
pub proof fn lemma_unterminated_tail_dropped(text: Seq<u8>, tail: Seq<u8>)
    requires
        text.len() == 0 || text.last() == NEWLINE,
        no_terminator(lines_from(tail, 0)),
    ensures
        legacy_quotes(text + tail) == legacy_quotes(text),
{
    lemma_lines_within(text, tail, 0);
    lemma_open_lines_appended(lines_from(text, 0), lines_from(tail, 0), Seq::<u8>::empty());
}

/// `lines`, each with a newline behind it, one after the other.
pub open spec fn joined(lines: Seq<Seq<u8>>) -> Seq<u8>
    decreases lines.len(),
{
    if lines.len() == 0 {
        Seq::<u8>::empty()
    } else {
        lines[0] + seq![NEWLINE] + joined(lines.drop_first())
    }
}

/// Whether the fallback format can hold `quote` as it is: it is made of
/// whole lines, none of them a `%` line, none with a carriage return in
/// front of its newline.
pub open spec fn storable(quote: Seq<u8>) -> bool {
    &&& quote.len() == 0 || quote.last() == NEWLINE
    &&& no_terminator(lines_from(quote, 0))
    &&& forall|i: int|
        0 < i < quote.len() && #[trigger] quote[i] == NEWLINE ==> quote[i - 1]
            != CARRIAGE_RETURN
}

/// The text that holds `quotes` in the fallback format: each quote with a
/// `%` line behind it.
pub open spec fn legacy_text(quotes: Seq<Seq<u8>>) -> Seq<u8>
    decreases quotes.len(),
{
    if quotes.len() == 0 {
        Seq::<u8>::empty()
    } else {
        quotes[0] + seq![TERMINATOR, NEWLINE] + legacy_text(quotes.drop_first())
    }
}

proof fn lemma_open_lines_join(a: Seq<Seq<u8>>, b: Seq<Seq<u8>>, current: Seq<u8>)
    requires
        no_terminator(a),
    ensures
        quotes_of(a + b, current) == quotes_of(b, current + joined(a)),
    decreases a.len(),
{
    if a.len() == 0 {
        assert(a + b =~= b);
        assert(current + joined(a) =~= current);
    } else {
        let rest = a.drop_first();
        assert(!is_terminator(a[0]));
        assert((a + b)[0] == a[0]);
        assert((a + b).drop_first() =~= rest + b);
        assert forall|i: int| 0 <= i < rest.len() implies !is_terminator(#[trigger] rest[i]) by {
            assert(rest[i] == a[i + 1]);
        }
        lemma_open_lines_join(rest, b, current + a[0] + seq![NEWLINE]);
        assert(current + a[0] + seq![NEWLINE] + joined(rest) =~= current + joined(a));
    }
}

proof fn lemma_whole_lines_join(quote: Seq<u8>, pos: int)
    requires
        quote.len() == 0 || quote.last() == NEWLINE,
        forall|i: int|
            0 < i < quote.len() && #[trigger] quote[i] == NEWLINE ==> quote[i - 1]
            != CARRIAGE_RETURN,
        0 <= pos <= quote.len(),
    ensures
        joined(lines_from(quote, pos)) == quote.subrange(pos, quote.len() as int),
    decreases quote.len() - pos,
{
    if pos < quote.len() {
        lemma_line_end(quote, pos);
        let end = line_end(quote, pos);
        let lines = lines_from(quote, pos);
        assert(quote[end - 1] == NEWLINE);
        assert(content_end(quote, pos) == end - 1);
        assert(lines[0] == line_content(quote, pos));
        assert(lines.drop_first() =~= lines_from(quote, end));
        lemma_whole_lines_join(quote, end);
        assert(line_content(quote, pos) + seq![NEWLINE] =~= quote.subrange(pos, end));
        assert(quote.subrange(pos, end) + quote.subrange(end, quote.len() as int)
            =~= quote.subrange(pos, quote.len() as int));
    } else {
        assert(quote.subrange(pos, quote.len() as int) =~= Seq::<u8>::empty());
    }
}

/// Quotes written out in the fallback format are read back as they were, in
/// their order.
pub proof fn lemma_legacy_round_trip(quotes: Seq<Seq<u8>>)
    requires
        forall|i: int| 0 <= i < quotes.len() ==> storable(#[trigger] quotes[i]),
    ensures
        legacy_quotes(legacy_text(quotes)) == quotes,
    decreases quotes.len(),
{
    if quotes.len() == 0 {
        assert(legacy_quotes(legacy_text(quotes)) =~= quotes);
    } else {
        let quote = quotes[0];
        let rest = quotes.drop_first();
        let closing = seq![TERMINATOR, NEWLINE];
        let behind = legacy_text(rest);
        assert(storable(quote));
        assert forall|i: int| 0 <= i < rest.len() implies storable(#[trigger] rest[i]) by {
            assert(rest[i] == quotes[i + 1]);
        }
        lemma_legacy_round_trip(rest);

        assert(legacy_text(quotes) =~= quote + (closing + behind));
        lemma_lines_within(quote, closing + behind, 0);
        lemma_lines_within(closing, behind, 0);
        reveal_with_fuel(line_end, 3);
        assert(line_end(closing, 0) == 2);
        assert(line_content(closing, 0) =~= seq![TERMINATOR]);
        assert(lines_from(closing, 2) =~= Seq::<Seq<u8>>::empty());
        assert(lines_from(closing, 0) =~= seq![seq![TERMINATOR]]);
        let tail = seq![seq![TERMINATOR]] + lines_from(behind, 0);
        assert(lines_from(legacy_text(quotes), 0) == lines_from(quote, 0) + tail);

        lemma_open_lines_join(lines_from(quote, 0), tail, Seq::<u8>::empty());
        lemma_whole_lines_join(quote, 0);
        assert(Seq::<u8>::empty() + joined(lines_from(quote, 0)) =~= quote);
        assert(is_terminator(tail[0]));
        assert(tail.drop_first() =~= lines_from(behind, 0));
        assert(quotes_of(tail, quote) == seq![quote] + quotes_of(
            lines_from(behind, 0),
            Seq::<u8>::empty(),
        ));
        assert(seq![quote] + rest =~= quotes);
    }
}

} // verus!
