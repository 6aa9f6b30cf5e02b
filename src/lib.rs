//! A quote-of-the-day library: quote files are parsed into records, kept as a binary
//! cache, and one record is picked at random for display.
pub mod cache;
pub mod manager;
pub mod quote;
pub mod scan;
pub mod select;
pub mod text;

pub use cache::{decode_quotes, encode_quotes};
pub use manager::QuoteManager;
pub use quote::{Error, Quote};
pub use scan::{add_file_quotes, is_quote_file, parse_blocks, scan_files};
pub use select::{pick, pick_random};
