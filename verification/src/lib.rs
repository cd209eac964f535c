//! Core of a quote-of-the-day service: the binary quote index, the quote
//! extractor built on it, the delimiter-separated fallback format, the quote
//! store with its random selector, and the decision tables of the two
//! responders.

pub mod endian;
pub mod strfile;
pub mod rot13;
pub mod text;
pub mod extract;
pub mod legacy;
pub mod store;
pub mod responder;
