//! Character-level helpers: the views of strings as `Seq<char>`, searching for a
//! separator, splitting, and trimming white space.
use vstd::prelude::*;

verus! {

/// The characters of `s`, in order.
pub fn chars_of(s: &str) -> (r: Vec<char>)
    ensures
        r@ == s@,
{
    let mut r: Vec<char> = Vec::new();
    for c in it: s.chars()
        invariant
            it.seq() == s@,
            r@ == it.seq().take(it.index() as int),
    {
        r.push(c);
        assert(r@ =~= it.seq().take(it.index() + 1));
    }
    assert(r@ =~= s@);
    r
}

/// Relies on `String::push`: appends one character at the end.
#[verifier::external_body]
pub(crate) fn push_char(s: &mut String, c: char)
    ensures
        final(s)@ == old(s)@.push(c),
{
    s.push(c)
}

/// Whether `sep` occurs in `s` starting at index `i`.
pub open spec fn occurs_at(s: Seq<char>, sep: Seq<char>, i: int) -> bool {
    0 <= i && i + sep.len() <= s.len() && s.subrange(i, i + sep.len()) == sep
}

/// Checks `occurs_at(s@, sep@, i)`.
pub fn matches_at(s: &Vec<char>, sep: &Vec<char>, i: usize) -> (r: bool)
    ensures
        r == occurs_at(s@, sep@, i as int),
{
    if i > s.len() || sep.len() > s.len() - i {
        return false;
    }
    let mut k: usize = 0;
    while k < sep.len()
        invariant
            i + sep@.len() <= s@.len() <= usize::MAX,
            k <= sep@.len(),
            forall|j: int| 0 <= j < k ==> s@[i + j] == sep@[j],
        decreases sep@.len() - k,
    {
        if s[i + k] != sep[k] {
            assert(s@.subrange(i as int, i + sep@.len())[k as int] != sep@[k as int]);
            return false;
        }
        k = k + 1;
    }
    assert(s@.subrange(i as int, i + sep@.len()) =~= sep@);
    true
}


/// Whether index `i` is the first place where `sep` occurs in `s`.
pub open spec fn is_first_occurrence(s: Seq<char>, sep: Seq<char>, i: int) -> bool {
    occurs_at(s, sep, i) && forall|k: int| 0 <= k < i ==> !occurs_at(s, sep, k)
}

/// The index of the first occurrence of `sep` in `s`, if there is one.
pub open spec fn first_occurrence(s: Seq<char>, sep: Seq<char>) -> Option<int> {
    if exists|i: int| is_first_occurrence(s, sep, i) {
        Some(choose|i: int| is_first_occurrence(s, sep, i))
    } else {
        None
    }
}

/// There is at most one first occurrence.
pub proof fn lemma_first_occurrence_unique(s: Seq<char>, sep: Seq<char>, i: int, j: int)
    requires
        is_first_occurrence(s, sep, i),
        is_first_occurrence(s, sep, j),
    ensures
        i == j,
{
    if i < j {
        assert(!occurs_at(s, sep, i));
    } else if j < i {
        assert(!occurs_at(s, sep, j));
    }
}

/// Occurrences in a suffix of `s` are occurrences in `s`, shifted by where the suffix starts.
pub proof fn lemma_occurs_in_suffix(s: Seq<char>, sep: Seq<char>, start: int, k: int)
    requires
        0 <= start <= s.len(),
        0 <= k,
    ensures
        occurs_at(s.skip(start), sep, k) == occurs_at(s, sep, k + start),
{
    if 0 <= k && k + sep.len() <= s.len() - start {
        assert(s.skip(start).subrange(k, k + sep.len()) =~= s.subrange(k + start, k + start + sep.len()));
    }
}

/// Searches `s` for `sep`, starting at index `from`; returns the first index at or after
/// `from` where `sep` occurs.
pub fn find_from(s: &Vec<char>, sep: &Vec<char>, from: usize) -> (r: Option<usize>)
    requires
        from <= s@.len(),
    ensures
        match r {
            Some(i) => from <= i && is_first_occurrence(s@.skip(from as int), sep@, i - from),
            None => first_occurrence(s@.skip(from as int), sep@) is None,
        },
{
    let ghost t = s@.skip(from as int);
    let mut i: usize = from;
    while i < s.len()
        invariant
            from <= i <= s@.len(),
            t == s@.skip(from as int),
            forall|k: int| 0 <= k < i - from ==> !occurs_at(t, sep@, k),
        decreases s@.len() - i,
    {
        proof {
            lemma_occurs_in_suffix(s@, sep@, from as int, i - from);
        }
        if matches_at(s, sep, i) {
            return Some(i);
        }
        i = i + 1;
    }
    proof {
        lemma_occurs_in_suffix(s@, sep@, from as int, i - from);
    }
    if matches_at(s, sep, i) {
        return Some(i);
    }
    assert forall|k: int| !is_first_occurrence(t, sep@, k) by {
        if 0 <= k && k + sep@.len() <= t.len() {
            assert(k <= i - from);
        }
    }
    None
}

/// The pieces of `s` that lie between the occurrences of `sep`, taken from left to right;
/// there is always one piece more than there are occurrences.
pub open spec fn pieces(s: Seq<char>, sep: Seq<char>) -> Seq<Seq<char>>
    decreases s.len(),
{
    if sep.len() > 0 && first_occurrence(s, sep) is Some {
        let i = first_occurrence(s, sep)->0;
        seq![s.take(i)] + pieces(s.skip(i + sep.len()), sep)
    } else {
        seq![s]
    }
}

/// Whether `c` has the Unicode `White_Space` property, which is what `char::is_whitespace`
/// and `str::trim` go by.
pub open spec fn white_space(c: char) -> bool {
    let u = c as u32;
    (0x9 <= u && u <= 0xd) || u == 0x20 || u == 0x85 || u == 0xa0 || u == 0x1680 || (0x2000 <= u
        && u <= 0x200a) || u == 0x2028 || u == 0x2029 || u == 0x202f || u == 0x205f || u == 0x3000
}

/// Checks `white_space(c)`.
pub fn is_white(c: char) -> (r: bool)
    ensures
        r == white_space(c),
{
    let u = c as u32;
    (0x9 <= u && u <= 0xd) || u == 0x20 || u == 0x85 || u == 0xa0 || u == 0x1680 || (0x2000 <= u
        && u <= 0x200a) || u == 0x2028 || u == 0x2029 || u == 0x202f || u == 0x205f || u == 0x3000
}

/// `s` without its leading white space.
pub open spec fn trim_start(s: Seq<char>) -> Seq<char>
    decreases s.len(),
{
    if s.len() > 0 && white_space(s[0]) {
        trim_start(s.drop_first())
    } else {
        s
    }
}

/// `s` without its trailing white space.
pub open spec fn trim_end(s: Seq<char>) -> Seq<char>
    decreases s.len(),
{
    if s.len() > 0 && white_space(s.last()) {
        trim_end(s.drop_last())
    } else {
        s
    }
}

/// `s` without its leading and trailing white space.
pub open spec fn trim(s: Seq<char>) -> Seq<char> {
    trim_end(trim_start(s))
}

/// The bounds of `trim(s@)` within `s`.
pub fn trim_bounds(s: &Vec<char>) -> (r: (usize, usize))
    ensures
        r.0 <= r.1 <= s@.len(),
        s@.subrange(r.0 as int, r.1 as int) == trim(s@),
{
    let n = s.len();
    let mut lo: usize = 0;
    assert(s@.skip(0) =~= s@);
    while lo < n && is_white(s[lo])
        invariant
            n == s@.len(),
            lo <= n,
            trim_start(s@) == trim_start(s@.skip(lo as int)),
        decreases n - lo,
    {
        assert(s@.skip(lo as int).drop_first() =~= s@.skip(lo + 1));
        lo = lo + 1;
    }
    let ghost t = s@.skip(lo as int);
    assert(trim_start(s@) == t) by {
        if lo == n {
            assert(t.len() == 0);
        }
    }
    let mut hi: usize = n;
    assert(s@.subrange(lo as int, hi as int) =~= t);
    while hi > lo && is_white(s[hi - 1])
        invariant
            n == s@.len(),
            lo <= hi <= n,
            trim_end(t) == trim_end(s@.subrange(lo as int, hi as int)),
        decreases hi,
    {
        assert(s@.subrange(lo as int, hi as int).drop_last() =~= s@.subrange(lo as int, hi - 1));
        hi = hi - 1;
    }
    (lo, hi)
}

/// A copy of `s@.subrange(lo, hi)` as a `String`.
pub fn string_of(s: &Vec<char>, lo: usize, hi: usize) -> (r: String)
    requires
        lo <= hi <= s@.len(),
    ensures
        r@ == s@.subrange(lo as int, hi as int),
{
    let mut r = String::new();
    let mut i: usize = lo;
    while i < hi
        invariant
            lo <= i <= hi <= s@.len(),
            r@ == s@.subrange(lo as int, i as int),
        decreases hi - i,
    {
        push_char(&mut r, s[i]);
        assert(r@ =~= s@.subrange(lo as int, i + 1));
        i = i + 1;
    }
    r
}

/// A copy of `s@.subrange(lo, hi)`.
pub fn chars_between(s: &Vec<char>, lo: usize, hi: usize) -> (r: Vec<char>)
    requires
        lo <= hi <= s@.len(),
    ensures
        r@ == s@.subrange(lo as int, hi as int),
{
    let mut r: Vec<char> = Vec::new();
    let mut i: usize = lo;
    while i < hi
        invariant
            lo <= i <= hi <= s@.len(),
            r@ == s@.subrange(lo as int, i as int),
        decreases hi - i,
    {
        r.push(s[i]);
        assert(r@ =~= s@.subrange(lo as int, i + 1));
        i = i + 1;
    }
    r
}


/// The views of a sequence of character vectors.
pub open spec fn views(vs: Seq<Vec<char>>) -> Seq<Seq<char>> {
    vs.map_values(|v: Vec<char>| v@)
}

/// There is always at least one piece.
pub proof fn lemma_pieces_not_empty(s: Seq<char>, sep: Seq<char>)
    ensures
        pieces(s, sep).len() >= 1,
{
}

/// Splits `s` at every occurrence of `sep`, from left to right.
pub fn split_pieces(s: &Vec<char>, sep: &Vec<char>) -> (r: Vec<Vec<char>>)
    requires
        sep@.len() > 0,
    ensures
        views(r@) == pieces(s@, sep@),
{
    let mut out: Vec<Vec<char>> = Vec::new();
    let mut start: usize = 0;
    let n = s.len();
    assert(s@.skip(0) =~= s@);
    assert(views(out@) + pieces(s@, sep@) =~= pieces(s@, sep@));
    loop
        invariant
            start <= n,
            n == s@.len(),
            sep@.len() > 0,
            pieces(s@, sep@) == views(out@) + pieces(s@.skip(start as int), sep@),
        decreases n - start,
    {
        let ghost t = s@.skip(start as int);
        match find_from(s, sep, start) {
            Some(i) => {
                proof {
                    let j = choose|j: int| is_first_occurrence(t, sep@, j);
                    lemma_first_occurrence_unique(t, sep@, j, i - start);
                    assert(t.take(i - start) =~= s@.subrange(start as int, i as int));
                    assert(t.skip(i - start + sep@.len()) =~= s@.skip(i + sep@.len()));
                    assert(i + sep@.len() <= s@.len());
                }
                let piece = chars_between(s, start, i);
                let ghost before = out@;
                out.push(piece);
                assert(views(out@) =~= views(before) + seq![piece@]);
                start = i + sep.len();
            },
            None => {
                assert(t =~= s@.subrange(start as int, s@.len() as int));
                let piece = chars_between(s, start, n);
                let ghost before = out@;
                out.push(piece);
                assert(views(out@) =~= views(before) + seq![piece@]);
                return out;
            },
        }
    }
}

} // verus!
