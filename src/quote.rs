//! Quote records: parsing one raw block of text, and rendering a quote for display.
use vstd::prelude::*;
use vstd::string::StringExecFns;

use crate::text::{chars_between, chars_of, find_from, first_occurrence, is_first_occurrence, lemma_first_occurrence_unique, push_char, string_of, trim, trim_bounds};

verus! {

/// A quotation, with its attribution when it has one.
#[derive(Debug, Clone, PartialEq)]
pub struct Quote {
    pub source: Option<String>,
    pub text: String,
}

/// The view of an optional string.
pub open spec fn opt_view(s: Option<String>) -> Option<Seq<char>> {
    match s {
        Some(x) => Some(x@),
        None => None,
    }
}

impl View for Quote {
    /// The source and the text, in the order of the fields.
    type V = (Option<Seq<char>>, Seq<char>);

    open spec fn view(&self) -> (Option<Seq<char>>, Seq<char>) {
        (opt_view(self.source), self.text@)
    }
}

/// The records of a collection, as plain values, in order.
pub open spec fn records(quotes: Seq<Quote>) -> Seq<(Option<Seq<char>>, Seq<char>)> {
    quotes.map_values(|q: Quote| q@)
}

#[verifier::external_type_specification]
#[verifier::external_body]
pub struct ExIoError(std::io::Error);

/// The ways in which the operations of this library fail.
#[derive(Debug)]
pub enum Error {
    /// A raw block holds no text before the attribution.
    EOI,
    /// The collection could not be encoded, or the cache could not be decoded.
    Serialize(bincode::Error),
    /// A file system operation failed.
    IO(std::io::Error),
    /// A quote was asked of an empty collection.
    EmptyCollection,
}

/// What separates a quote's text from its source: a newline, two tabs, `--` and a space.
pub open spec fn quote_delimiter() -> Seq<char> {
    seq!['\n', '\t', '\t', '-', '-', ' ']
}

fn quote_delimiter_chars() -> (r: Vec<char>)
    ensures
        r@ == quote_delimiter(),
{
    let r = vec!['\n', '\t', '\t', '-', '-', ' '];
    assert(r@ =~= quote_delimiter());
    r
}

/// The quote that a raw block describes, or `None` when what stands before the first
/// delimiter is empty once trimmed (in particular, when the block is empty or white space
/// alone). The text is what stands before the first delimiter, trimmed; the source is
/// everything after it, verbatim, and is absent when there is no delimiter or nothing
/// follows it.
pub open spec fn parse_quote(raw: Seq<char>) -> Option<(Option<Seq<char>>, Seq<char>)> {
    let before = match first_occurrence(raw, quote_delimiter()) {
        Some(i) => raw.take(i),
        None => raw,
    };
    let after = match first_occurrence(raw, quote_delimiter()) {
        Some(i) => raw.skip(i + quote_delimiter().len()),
        None => Seq::empty(),
    };
    if trim(before).len() == 0 {
        None
    } else if after.len() == 0 {
        Some((None, trim(before)))
    } else {
        Some((Some(after), trim(before)))
    }
}

/// How a quote is displayed: the text between curly single quotes, then a newline, a tab,
/// an em dash, a space, and the source, or `Unknown` when there is none.
pub open spec fn formatted(q: (Option<Seq<char>>, Seq<char>)) -> Seq<char> {
    seq!['\u{2018}'] + q.1 + seq!['\u{2019}', '\n', '\t', '\u{2014}', ' '] + match q.0 {
        Some(source) => source,
        None => seq!['U', 'n', 'k', 'n', 'o', 'w', 'n'],
    }
}

impl Quote {
    /// Renders the quote for display.
    pub fn to_string(&self) -> (r: String)
        ensures
            r@ == formatted(self@),
    {
        let mut r = String::new();
        push_char(&mut r, '\u{2018}');
        r.append(self.text.as_str());
        push_char(&mut r, '\u{2019}');
        push_char(&mut r, '\n');
        push_char(&mut r, '\t');
        push_char(&mut r, '\u{2014}');
        push_char(&mut r, ' ');
        match &self.source {
            Some(source) => r.append(source.as_str()),
            None => {
                proof {
                    reveal_strlit("Unknown");
                }
                r.append("Unknown");
            },
        }
        assert(r@ =~= formatted(self@));
        r
    }

    /// Parses one raw block of text into a quote.
    pub fn try_from(value: &str) -> (r: Result<Quote, Error>)
        ensures
            match parse_quote(value@) {
                Some(q) => r matches Ok(quote) && quote@ == q,
                None => r matches Err(Error::EOI),
            },
    {
        let raw = chars_of(value);
        Self::from_chars(&raw)
    }

    /// Parses the characters of one raw block into a quote.
    pub fn from_chars(raw: &Vec<char>) -> (r: Result<Quote, Error>)
        ensures
            match parse_quote(raw@) {
                Some(q) => r matches Ok(quote) && quote@ == q,
                None => r matches Err(Error::EOI),
            },
    {
        let n = raw.len();
        let delimiter = quote_delimiter_chars();
        assert(raw@.skip(0) =~= raw@);
        let found = find_from(raw, &delimiter, 0);
        let (end, rest) = match found {
            Some(i) => {
                proof {
                    let j = choose|j: int| is_first_occurrence(raw@, quote_delimiter(), j);
                    lemma_first_occurrence_unique(raw@, quote_delimiter(), i as int, j);
                    assert(i + delimiter@.len() <= n);
                }
                (i, i + delimiter.len())
            },
            None => (n, n),
        };
        let before = chars_between(raw, 0, end);
        assert(before@ =~= raw@.take(end as int));
        let (lo, hi) = trim_bounds(&before);
        if lo == hi {
            return Err(Error::EOI);
        }
        let text = string_of(&before, lo, hi);
        let source = if rest == n {
            assert(raw@.skip(rest as int).len() == 0);
            None
        } else {
            let s = string_of(raw, rest, n);
            assert(s@ =~= raw@.skip(rest as int));
            Some(s)
        };
        Ok(Quote { source, text })
    }
}

} // verus!
