//! The quote store: the quotes that the service hands out, loaded once and
//! never changed afterwards, together with the rule that decides where they
//! are loaded from and the selector that draws one of them.

use crate::extract::{indexed_quotes, offsets_valid};
use crate::legacy::{legacy_quotes, load_raw_quotes};
use crate::strfile::{decode_header, HeaderView, StrfileHeader};
use crate::text::texts;
use rand::Rng;
use vstd::prelude::*;

verus! {

/// What is added to the name of a text file to name its index.
pub const INDEX_SUFFIX: &'static str = ".dat";

/// A sequence of quotes that is not empty.
///
/// A store cannot be made of no quotes, so that a quote can always be drawn
/// from it: whoever loads the quotes learns from `QuoteStore::new` that there
/// are none, before any request is served.
#[derive(Debug)]
pub struct QuoteStore {
    quotes: Vec<Vec<u8>>,
}

impl View for QuoteStore {
    type V = Seq<Seq<u8>>;

    closed spec fn view(&self) -> Seq<Seq<u8>> {
        texts(self.quotes@)
    }
}

/// Calls `rand::thread_rng` and, on the generator it returns,
/// `rand::Rng::gen_range` with the bounds 0 and `bound`. `gen_range` panics
/// where the lower bound is not below the upper one, hence `requires`. The
/// number it returns is at least the lower and below the upper bound; which
/// one it is differs from call to call, so nothing more is stated.
/// `thread_rng` panics where the operating system has no randomness to seed
/// the generator with, which no argument decides.
#[verifier::external_body]
fn random_below(bound: usize) -> (n: usize)
    requires
        bound > 0,
    ensures
        n < bound,
{
    rand::thread_rng().gen_range(0, bound)
}

impl QuoteStore {
    #[verifier::type_invariant]
    spec fn not_empty(&self) -> bool {
        self.quotes@.len() > 0
    }

    /// Makes a store of `quotes`, unless there are none.
    pub fn new(quotes: Vec<Vec<u8>>) -> (store: Option<QuoteStore>)
        ensures
            store is Some <==> quotes@.len() > 0,
            store matches Some(s) ==> s@ == texts(quotes@),
    {
        if quotes.len() == 0 {
            None
        } else {
            Some(QuoteStore { quotes })
        }
    }

    /// The number of quotes, which is never zero.
    pub fn len(&self) -> (n: usize)
        ensures
            n == self@.len(),
            n > 0,
    {
        proof {
            use_type_invariant(self);
        }
        self.quotes.len()
    }

    /// The quote at `index`, if the store has that many.
    pub fn get(&self, index: usize) -> (quote: Option<&Vec<u8>>)
        ensures
            quote is Some <==> index < self@.len(),
            quote matches Some(q) ==> q@ == self@[index as int],
    {
        if index < self.quotes.len() {
            Some(&self.quotes[index])
        } else {
            None
        }
    }

    /// Draws one quote at random, each call on its own: a quote that was
    /// drawn before may be drawn again.
    pub fn choose_random_one(&self) -> (quote: &Vec<u8>)
        ensures
            exists|i: int| 0 <= i < self@.len() && quote@ == self@[i],
    {
        let index: usize = random_below(self.len());
        match self.get(index) {
            Some(quote) => quote,
            None => unreached(),
        }
    }
}

/// The name of the index that belongs to the text file `base`.
pub fn index_file_name(base: &str) -> (name: String)
    ensures
        name@ == base@ + INDEX_SUFFIX@,
{
    String::from_str(base).concat(INDEX_SUFFIX)
}

/// The bytes of an index file, if there is one.
pub open spec fn index_bytes(index: Option<&[u8]>) -> Option<Seq<u8>> {
    match index {
        Some(bytes) => Some(bytes@),
        None => None,
    }
}

/// The header that the load starts from: the one that the index file holds,
/// if there is an index file and it parses.
pub open spec fn usable_header(index: Option<Seq<u8>>) -> Option<HeaderView> {
    match index {
        Some(bytes) => match decode_header(bytes) {
            Ok(h) => Some(h),
            Err(_) => None,
        },
        None => None,
    }
}

/// The quotes to serve, given the header of the index, if there is a usable
/// one: those that the index leads to, if each of its offsets leads to one;
/// in every other case those of the text read in the fallback format, from
/// its start.
pub open spec fn quotes_by(header: Option<HeaderView>, text: Seq<u8>) -> Seq<Seq<u8>> {
    match header {
        Some(h) => if offsets_valid(h, text) {
            indexed_quotes(h, text)
        } else {
            legacy_quotes(text)
        },
        None => legacy_quotes(text),
    }
}

/// The content of an optional header.
pub open spec fn header_view(header: Option<&StrfileHeader>) -> Option<HeaderView> {
    match header {
        Some(h) => Some(h@),
        None => None,
    }
}

/// Loads the quotes with the index, if there is one, and without it where
/// that fails.
pub fn select_quotes(header: Option<&StrfileHeader>, text: &[u8]) -> (quotes: Vec<Vec<u8>>)
    ensures
        texts(quotes@) == quotes_by(header_view(header), text@),
{
    match header {
        Some(h) => match h.read_quotes(text) {
            Ok(quotes) => quotes,
            Err(_) => load_raw_quotes(text),
        },
        None => load_raw_quotes(text),
    }
}

/// What the load at startup gives: the header of the index, where an index
/// was there and parsed, and the quotes to serve.
#[derive(Debug)]
pub struct Loaded {
    pub header: Option<StrfileHeader>,
    pub quotes: Vec<Vec<u8>>,
}

/// The load at startup, from the bytes of the index file, if it could be
/// read, and those of the text file.
///
/// The index is used where it parses and the extraction with it succeeds.
/// Where either fails, nothing of the attempt is kept, and the text is read
/// in the fallback format.
pub fn load(index: Option<&[u8]>, text: &[u8]) -> (loaded: Loaded)
    ensures
        match loaded.header {
            Some(h) => usable_header(index_bytes(index)) == Some(h@) && h.well_formed(),
            None => usable_header(index_bytes(index)) is None,
        },
        texts(loaded.quotes@) == quotes_by(usable_header(index_bytes(index)), text@),
{
    let header = match index {
        Some(bytes) => match StrfileHeader::new(bytes) {
            Ok(h) => Some(h),
            Err(_) => None,
        },
        None => None,
    };
    let quotes = select_quotes(header.as_ref(), text);
    Loaded { header, quotes }
}

/// An index that cannot be used changes nothing: where the index file is
/// missing, does not parse, or has an offset that leads to no quote, the
/// quotes are those of the text read in the fallback format.
pub proof fn lemma_unusable_index_falls_back(index: Option<Seq<u8>>, text: Seq<u8>)
    requires
        match index {
            Some(bytes) => match decode_header(bytes) {
                Ok(h) => !offsets_valid(h, text),
                Err(_) => true,
            },
            None => true,
        },
    ensures
        quotes_by(usable_header(index), text) == legacy_quotes(text),
        quotes_by(usable_header(index), text) == quotes_by(usable_header(None), text),
{
}

} // verus!
