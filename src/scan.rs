//! Scanning quote files: each file's content is split into blocks, and each block is parsed
//! into a quote. One malformed block fails the whole scan.
use vstd::prelude::*;

use crate::quote::{parse_quote, records, Error, Quote};
use crate::text::{chars_of, lemma_pieces_not_empty, pieces, split_pieces, views};

verus! {

/// What separates the blocks of a quote file: a newline and a percent sign.
pub open spec fn block_separator() -> Seq<char> {
    seq!['\n', '%']
}

/// The blocks of a file's content: the pieces between block separators, without the last
/// piece when it is empty.
pub open spec fn blocks(content: Seq<char>) -> Seq<Seq<char>> {
    let p = pieces(content, block_separator());
    if p.len() > 0 && p.last().len() == 0 {
        p.drop_last()
    } else {
        p
    }
}

/// The quotes that a file's content holds, one per block in order; `None` when some block
/// does not parse.
pub open spec fn quotes_in(content: Seq<char>) -> Option<Seq<(Option<Seq<char>>, Seq<char>)>> {
    let b = blocks(content);
    if forall|i: int| 0 <= i < b.len() ==> (#[trigger] parse_quote(b[i])) is Some {
        Some(b.map_values(|x: Seq<char>| parse_quote(x)->0))
    } else {
        None
    }
}

/// Parses every block of a file's content.
pub fn parse_blocks(content: &str) -> (r: Result<Vec<Quote>, Error>)
    ensures
        match quotes_in(content@) {
            Some(qs) => r matches Ok(v) && records(v@) == qs,
            None => r matches Err(Error::EOI),
        },
{
    let chars = chars_of(content);
    let separator = vec!['\n', '%'];
    assert(separator@ =~= block_separator());
    let mut parts = split_pieces(&chars, &separator);
    proof {
        lemma_pieces_not_empty(content@, block_separator());
    }
    let last = parts.len() - 1;
    if parts[last].len() == 0 {
        let ghost before = parts@;
        parts.pop();
        assert(views(parts@) =~= views(before).drop_last());
    }
    let ghost b = blocks(content@);
    assert(views(parts@) == b);
    let mut out: Vec<Quote> = Vec::new();
    let mut i: usize = 0;
    while i < parts.len()
        invariant
            b == blocks(content@),
            views(parts@) == b,
            i <= parts@.len(),
            forall|k: int| 0 <= k < i ==> (#[trigger] parse_quote(b[k])) is Some,
            records(out@) == b.take(i as int).map_values(|x: Seq<char>| parse_quote(x)->0),
        decreases parts@.len() - i,
    {
        assert(parts@[i as int]@ == b[i as int]);
        match Quote::from_chars(&parts[i]) {
            Ok(q) => {
                let ghost before = out@;
                out.push(q);
                assert(records(out@) =~= records(before).push(q@));
                assert(b.take(i + 1).map_values(|x: Seq<char>| parse_quote(x)->0) =~= b.take(
                    i as int,
                ).map_values(|x: Seq<char>| parse_quote(x)->0).push(parse_quote(b[i as int])->0));
            },
            Err(e) => {
                assert(parse_quote(b[i as int]) is None);
                assert(i < b.len());
                assert(quotes_in(content@) is None);
                return Err(e);
            },
        }
        i = i + 1;
    }
    assert(b.take(b.len() as int) =~= b);
    Ok(out)
}


/// Whether a file name has the extension `txt`: it ends with `.txt`, and that dot is not
/// the name's first character.
pub open spec fn is_quote_file_name(name: Seq<char>) -> bool {
    name.len() > 4 && name.skip(name.len() - 4) == seq!['.', 't', 'x', 't']
}

/// Whether a file with this name holds quotes.
pub fn is_quote_file(name: &str) -> (r: bool)
    ensures
        r == is_quote_file_name(name@),
{
    let chars = chars_of(name);
    let n = chars.len();
    if n <= 4 {
        return false;
    }
    let r = chars[n - 4] == '.' && chars[n - 3] == 't' && chars[n - 2] == 'x' && chars[n - 1] == 't';
    assert(r == (chars@.skip(n - 4) =~= seq!['.', 't', 'x', 't']));
    r
}

/// Adds the quotes of one file's content at the end of `quotes`. When a block does not
/// parse, `quotes` is left as it was.
pub fn add_file_quotes(quotes: &mut Vec<Quote>, content: &str) -> (r: Result<(), Error>)
    ensures
        match quotes_in(content@) {
            Some(qs) => r is Ok && records(final(quotes)@) == records(old(quotes)@) + qs,
            None => r matches Err(Error::EOI) && final(quotes)@ == old(quotes)@,
        },
{
    let mut parsed = parse_blocks(content)?;
    let ghost before = quotes@;
    let ghost added = parsed@;
    quotes.append(&mut parsed);
    assert(records(quotes@) =~= records(before) + records(added));
    Ok(())
}

/// The views of a list of `(file name, content)` pairs.
pub open spec fn file_views(files: Seq<(String, String)>) -> Seq<(Seq<char>, Seq<char>)> {
    files.map_values(|f: (String, String)| (f.0@, f.1@))
}

/// The collection that a list of `(file name, content)` pairs holds: the quotes of each
/// quote file, file after file; other files are skipped. `None` when a block of a quote
/// file does not parse.
pub open spec fn scanned(files: Seq<(Seq<char>, Seq<char>)>) -> Option<Seq<(Option<Seq<char>>, Seq<char>)>>
    decreases files.len(),
{
    if files.len() == 0 {
        Some(Seq::empty())
    } else {
        let (name, content) = files.last();
        match scanned(files.drop_last()) {
            None => None,
            Some(earlier) => if !is_quote_file_name(name) {
                Some(earlier)
            } else {
                match quotes_in(content) {
                    Some(qs) => Some(earlier + qs),
                    None => None,
                }
            },
        }
    }
}

/// Once a prefix of the files fails to scan, so do all the files.
proof fn lemma_scanned_fails_on_prefix(files: Seq<(Seq<char>, Seq<char>)>, i: int)
    requires
        0 <= i <= files.len(),
        scanned(files.take(i)) is None,
    ensures
        scanned(files) is None,
    decreases files.len(),
{
    if i == files.len() {
        assert(files.take(i) =~= files);
    } else {
        assert(files.drop_last().take(i) =~= files.take(i));
        lemma_scanned_fails_on_prefix(files.drop_last(), i);
    }
}

/// Scanning fails exactly when some quote file holds a block that does not parse.
pub proof fn lemma_scan_fails_iff_bad_quote_file(files: Seq<(Seq<char>, Seq<char>)>)
    ensures
        scanned(files) is None <==> exists|i: int|
            0 <= i < files.len() && is_quote_file_name(#[trigger] files[i].0) && quotes_in(files[i].1) is None,
    decreases files.len(),
{
    if files.len() > 0 {
        let rest = files.drop_last();
        lemma_scan_fails_iff_bad_quote_file(rest);
        if exists|i: int| 0 <= i < rest.len() && is_quote_file_name(#[trigger] rest[i].0) && quotes_in(rest[i].1) is None {
            let i = choose|i: int| 0 <= i < rest.len() && is_quote_file_name(#[trigger] rest[i].0) && quotes_in(rest[i].1) is None;
            assert(files[i] == rest[i]);
        }
        if exists|i: int| 0 <= i < files.len() && is_quote_file_name(#[trigger] files[i].0) && quotes_in(files[i].1) is None {
            let i = choose|i: int| 0 <= i < files.len() && is_quote_file_name(#[trigger] files[i].0) && quotes_in(files[i].1) is None;
            if i < rest.len() {
                assert(files[i] == rest[i]);
            }
        }
    }
}

/// The quote files of a listing, in their order; other files are left out.
pub open spec fn quote_files(files: Seq<(Seq<char>, Seq<char>)>) -> Seq<(Seq<char>, Seq<char>)> {
    files.filter(|f: (Seq<char>, Seq<char>)| is_quote_file_name(f.0))
}

/// A scan gives the same outcome as a scan of the quote files alone.
proof fn lemma_scan_of_quote_files(files: Seq<(Seq<char>, Seq<char>)>)
    ensures
        scanned(files) == scanned(quote_files(files)),
    decreases files.len(),
{
    reveal_with_fuel(Seq::filter, 1);
    if files.len() > 0 {
        let pred = |f: (Seq<char>, Seq<char>)| is_quote_file_name(f.0);
        let sub = files.drop_last().filter(pred);
        lemma_scan_of_quote_files(files.drop_last());
        if is_quote_file_name(files.last().0) {
            assert(sub.push(files.last()).drop_last() =~= sub);
        }
    }
}

/// Files whose names do not have the quote extension change nothing, wherever they stand
/// in the listing: two listings with the same quote files in the same order scan alike.
pub proof fn lemma_scan_ignores_other_files(
    a: Seq<(Seq<char>, Seq<char>)>,
    b: Seq<(Seq<char>, Seq<char>)>,
)
    requires
        quote_files(a) == quote_files(b),
    ensures
        scanned(a) == scanned(b),
{
    lemma_scan_of_quote_files(a);
    lemma_scan_of_quote_files(b);
}

/// Scans a list of `(file name, content)` pairs into one collection, stopping at the first
/// block that does not parse.
pub fn scan_files(files: &Vec<(String, String)>) -> (r: Result<Vec<Quote>, Error>)
    ensures
        match scanned(file_views(files@)) {
            Some(qs) => r matches Ok(v) && records(v@) == qs,
            None => r matches Err(Error::EOI),
        },
{
    let ghost fv = file_views(files@);
    let mut out: Vec<Quote> = Vec::new();
    let mut i: usize = 0;
    assert(fv.take(0) =~= Seq::empty());
    assert(records(out@) =~= Seq::empty());
    while i < files.len()
        invariant
            fv == file_views(files@),
            i <= files@.len(),
            scanned(fv.take(i as int)) == Some(records(out@)),
        decreases files@.len() - i,
    {
        let (name, content) = &files[i];
        assert(fv.take(i + 1).drop_last() =~= fv.take(i as int));
        assert(fv.take(i + 1).last() == (name@, content@));
        if is_quote_file(name.as_str()) {
            let res = add_file_quotes(&mut out, content.as_str());
            if res.is_err() {
                proof {
                    lemma_scanned_fails_on_prefix(fv, i + 1);
                }
                return Err(Error::EOI);
            }
        }
        i = i + 1;
    }
    assert(fv.take(i as int) =~= fv);
    Ok(out)
}

} // verus!
