//! The cache's binary form: a collection of quotes encoded with bincode, as the
//! sequence of its `(source, text)` records.
use vstd::prelude::*;

use crate::quote::{records, Error, Quote};

verus! {

#[verifier::external_type_specification]
#[verifier::external_body]
pub struct ExBincodeErrorKind(bincode::ErrorKind);

/// The bytes that bincode writes for a sequence of `(source, text)` records.
pub uninterp spec fn bincode_of(records: Seq<(Option<Seq<char>>, Seq<char>)>) -> Seq<u8>;

/// The records that bincode reads from bytes, or `None` when it fails on them.
pub uninterp spec fn bincode_decoded(bytes: Seq<u8>) -> Option<Seq<(Option<Seq<char>>, Seq<char>)>>;

/// Relies on `bincode::serialize`, applied to the `(source, text)` pairs of the quotes: its
/// output depends on those values alone, and it does not fail on them (no size limit, and
/// a `Vec` has a known length).
#[verifier::external_body]
fn serialize_records(quotes: &Vec<Quote>) -> (r: Result<Vec<u8>, bincode::Error>)
    ensures
        r is Ok,
        r matches Ok(b) ==> b@ == bincode_of(records(quotes@)),
{
    let pairs: Vec<(&Option<String>, &String)> = quotes.iter().map(|q| (&q.source, &q.text)).collect();
    bincode::serialize(&pairs)
}

/// Whether a decoding result is what bincode reads from the bytes: those records, or an
/// error when it reads none.
pub open spec fn decoded_as<E>(r: Result<Vec<Quote>, E>, bytes: Seq<u8>) -> bool {
    match bincode_decoded(bytes) {
        Some(c) => r matches Ok(v) && records(v@) == c,
        None => r is Err,
    }
}

/// Whether a decoding result holds, for bytes that bincode wrote for some records, those
/// records in order, and is an error for every strict prefix of such bytes.
pub open spec fn reads_back<E>(r: Result<Vec<Quote>, E>, bytes: Seq<u8>) -> bool {
    &&& forall|c: Seq<(Option<Seq<char>>, Seq<char>)>| #[trigger] bincode_of(c) == bytes
        ==> (r matches Ok(v) && records(v@) == c)
    &&& forall|c: Seq<(Option<Seq<char>>, Seq<char>)>, k: int|
        0 <= k < bincode_of(c).len() && bytes == #[trigger] bincode_of(c).take(k) ==> r is Err
}

/// Relies on `bincode::deserialize` reading `(source, text)` pairs: the outcome depends on
/// the bytes alone; bytes that `bincode::serialize` wrote for some records are read back
/// as those records; a strict prefix of such bytes runs out of input and fails.
#[verifier::external_body]
fn deserialize_records(bytes: &[u8]) -> (r: Result<Vec<Quote>, bincode::Error>)
    ensures
        r is Ok <==> bincode_decoded(bytes@) is Some,
        r matches Ok(v) ==> records(v@) == bincode_decoded(bytes@)->0,
        reads_back(r, bytes@),
{
    let pairs: Vec<(Option<String>, String)> = bincode::deserialize(bytes)?;
    Ok(pairs.into_iter().map(|(source, text)| Quote { source, text }).collect())
}

/// Encodes a collection for the cache. The bytes are a function of the collection's
/// records: their number, then each source and text, in order.
pub fn encode_quotes(quotes: &Vec<Quote>) -> (r: Result<Vec<u8>, Error>)
    ensures
        r matches Ok(b) && b@ == bincode_of(records(quotes@)),
{
    match serialize_records(quotes) {
        Ok(b) => Ok(b),
        Err(e) => Err(Error::Serialize(e)),
    }
}

/// Decodes the cache's bytes into a collection. The outcome depends on the bytes alone.
/// Bytes that `encode_quotes` produced for a collection decode to a collection with the
/// same records, in the same order; a strict prefix of them (a truncated cache) fails.
pub fn decode_quotes(bytes: &[u8]) -> (r: Result<Vec<Quote>, Error>)
    ensures
        decoded_as(r, bytes@),
        reads_back(r, bytes@),
        r is Err ==> r matches Err(Error::Serialize(_)),
{
    match deserialize_records(bytes) {
        Ok(v) => Ok(v),
        Err(e) => Err(Error::Serialize(e)),
    }
}

/// Round trip: a result that `decode_quotes` may return for the bytes that `encode_quotes`
/// produced for a collection is that collection, record for record and in order.
pub proof fn lemma_round_trip(quotes: Seq<Quote>, r: Result<Vec<Quote>, Error>)
    requires
        reads_back(r, bincode_of(records(quotes))),
    ensures
        r matches Ok(v) && records(v@) == records(quotes),
{
}

/// Decoding is deterministic: two results that `decode_quotes` may return for the same bytes
/// both fail, or both hold the same records.
pub proof fn lemma_decoding_deterministic(
    bytes: Seq<u8>,
    r1: Result<Vec<Quote>, Error>,
    r2: Result<Vec<Quote>, Error>,
)
    requires
        decoded_as(r1, bytes),
        decoded_as(r2, bytes),
    ensures
        r1 is Ok <==> r2 is Ok,
        r1 matches Ok(v1) ==> (r2 matches Ok(v2) && records(v1@) == records(v2@)),
{
}

/// A truncated cache fails to decode: a result that `decode_quotes` may return for a strict
/// prefix of what `encode_quotes` produced is an error.
pub proof fn lemma_truncated_fails(quotes: Seq<Quote>, k: int, r: Result<Vec<Quote>, Error>)
    requires
        0 <= k < bincode_of(records(quotes)).len(),
        reads_back(r, bincode_of(records(quotes)).take(k)),
    ensures
        r is Err,
{
}

/// Encoding is deterministic: collections with the same records have the same encoding.
pub proof fn lemma_encoding_deterministic(a: Seq<Quote>, b: Seq<Quote>)
    requires
        records(a) == records(b),
    ensures
        bincode_of(records(a)) == bincode_of(records(b)),
{
}

} // verus!
