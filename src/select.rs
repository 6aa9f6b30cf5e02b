//! Picking one quote of a collection at random.
use vstd::prelude::*;

use crate::quote::{Error, Quote};

verus! {

#[verifier::external_type_specification]
#[verifier::external_body]
pub struct ExThreadRng(rand::rngs::ThreadRng);

/// Relies on `rand::Rng::gen_range` over `0..n`: a value drawn from that range, uniformly;
/// it panics on an empty range, which `n > 0` rules out.
#[verifier::external_body]
fn draw_index(rng: &mut rand::rngs::ThreadRng, n: usize) -> (r: usize)
    requires
        n > 0,
    ensures
        r < n,
{
    rand::Rng::gen_range(rng, 0..n)
}

/// The quote at position `index`, for a draw made beforehand; fails only on an empty
/// collection.
pub fn pick(quotes: &Vec<Quote>, index: usize) -> (r: Result<&Quote, Error>)
    requires
        quotes@.len() == 0 || index < quotes@.len(),
    ensures
        quotes@.len() == 0 ==> r matches Err(Error::EmptyCollection),
        quotes@.len() > 0 ==> (r matches Ok(q) && *q == quotes@[index as int]),
{
    if quotes.len() == 0 {
        Err(Error::EmptyCollection)
    } else {
        Ok(&quotes[index])
    }
}

/// Picks one quote of the collection, uniformly at random; fails only on an empty
/// collection, and from a collection of one quote always picks that quote.
pub fn pick_random<'a>(quotes: &'a Vec<Quote>, rng: &mut rand::rngs::ThreadRng) -> (r: Result<&'a Quote, Error>)
    ensures
        quotes@.len() == 0 <==> r matches Err(Error::EmptyCollection),
        r is Err ==> r matches Err(Error::EmptyCollection),
        r matches Ok(q) ==> exists|i: int| 0 <= i < quotes@.len() && *q == quotes@[i],
        quotes@.len() == 1 ==> (r matches Ok(q) && *q == quotes@[0]),
{
    if quotes.len() == 0 {
        return Err(Error::EmptyCollection);
    }
    let index = draw_index(rng, quotes.len());
    pick(quotes, index)
}

} // verus!
