//! Where the quotes are read from and where their cache is kept.
use vstd::prelude::*;
use vstd::string::StringExecFns;

verus! {

/// The two paths that the cache operations work with: the directory of quote files and
/// the cache file.
pub struct QuoteManager {
    cache_path: String,
    quotes_path: String,
}

impl QuoteManager {
    /// A manager for the quote files under `quotes_path` and the cache at `cache_path`.
    pub fn new(quotes_path: &str, cache_path: &str) -> (r: QuoteManager)
        ensures
            r.quotes_dir() == quotes_path@,
            r.cache_file() == cache_path@,
    {
        QuoteManager {
            cache_path: String::from_str(cache_path),
            quotes_path: String::from_str(quotes_path),
        }
    }

    /// The directory of quote files.
    pub fn quotes_path(&self) -> (r: &String)
        ensures
            r@ == self.quotes_dir(),
    {
        &self.quotes_path
    }

    /// The cache file.
    pub fn cache_path(&self) -> (r: &String)
        ensures
            r@ == self.cache_file(),
    {
        &self.cache_path
    }

    /// The path of the directory of quote files.
    pub closed spec fn quotes_dir(&self) -> Seq<char> {
        self.quotes_path@
    }

    /// The path of the cache file.
    pub closed spec fn cache_file(&self) -> Seq<char> {
        self.cache_path@
    }
}

} // verus!
