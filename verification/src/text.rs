//! Substring search over the characters of a document.

use vstd::prelude::*;

verus! {

/// True when `pat` occurs in `doc` starting exactly at `i`.
pub open spec fn match_at(doc: Seq<char>, pat: Seq<char>, i: int) -> bool {
    &&& 0 <= i
    &&& i + pat.len() <= doc.len()
    &&& doc.subrange(i, i + pat.len() as int) == pat
}

/// The least position `j >= i` at which `pat` occurs in `doc`, if any.
pub open spec fn find_from(doc: Seq<char>, pat: Seq<char>, i: int) -> Option<int>
    decreases doc.len() - i,
    when 0 <= i <= doc.len()
{
    if pat.len() <= 0 {
        Some(i)
    } else if i + pat.len() > doc.len() {
        None
    } else if match_at(doc, pat, i) {
        Some(i)
    } else {
        find_from(doc, pat, i + 1)
    }
}

/// A found position is at or after the start and is a real match.
pub proof fn lemma_find_from_some(doc: Seq<char>, pat: Seq<char>, i: int, j: int)
    requires
        0 <= i <= doc.len(),
        find_from(doc, pat, i) == Some(j),
    ensures
        i <= j,
        match_at(doc, pat, j),
        j + pat.len() <= doc.len(),
    decreases doc.len() - i,
{
    if pat.len() <= 0 {
        assert(doc.subrange(j, j + pat.len() as int) =~= pat);
    } else if i + pat.len() > doc.len() {
    } else if match_at(doc, pat, i) {
    } else {
        lemma_find_from_some(doc, pat, i + 1, j);
    }
}

/// Builds the character sequence of `s` as a vector.
pub fn str_to_chars(s: &str) -> (v: Vec<char>)
    ensures
        v@ == s@,
{
    let n = s.unicode_len();
    let mut v: Vec<char> = Vec::new();
    let mut i: usize = 0;
    while i < n
        invariant
            i <= n,
            n == s@.len(),
            v@ == s@.subrange(0, i as int),
        decreases n - i,
    {
        let c = s.get_char(i);
        v.push(c);
        proof {
            assert(v@ =~= s@.subrange(0, i + 1));
        }
        i = i + 1;
    }
    proof {
        assert(v@ =~= s@);
    }
    v
}

/// Compares `pat` against `doc` at position `i`.
fn matches_at(doc: &Vec<char>, pat: &Vec<char>, i: usize) -> (b: bool)
    requires
        i + pat@.len() <= doc@.len(),
    ensures
        b == match_at(doc@, pat@, i as int),
{
    let dn = doc.len();
    let m = pat.len();
    let mut k: usize = 0;
    while k < m
        invariant
            k <= m,
            m == pat@.len(),
            dn == doc@.len(),
            i + m <= doc@.len(),
            forall|t: int| 0 <= t < k ==> doc@[i + t] == pat@[t],
        decreases m - k,
    {
        if doc[i + k] != pat[k] {
            proof {
                assert(!match_at(doc@, pat@, i as int)) by {
                    if doc@.subrange(i as int, i + m as int) == pat@ {
                        assert(doc@.subrange(i as int, i + m as int)[k as int] == doc@[i + k]);
                    }
                }
            }
            return false;
        }
        k = k + 1;
    }
    proof {
        assert(doc@.subrange(i as int, i + m as int) =~= pat@);
    }
    true
}

/// Finds the least occurrence of `pat` at or after `start`, as
/// [`find_from`] describes it.
pub fn find_in(doc: &Vec<char>, pat: &Vec<char>, start: usize) -> (r: Option<usize>)
    requires
        start <= doc@.len(),
    ensures
        match r {
            Some(j) => find_from(doc@, pat@, start as int) == Some(j as int),
            None => find_from(doc@, pat@, start as int) is None,
        },
{
    let n = doc.len();
    let m = pat.len();
    if m == 0 {
        return Some(start);
    }
    if m > n {
        return None;
    }
    let mut i: usize = start;
    while i <= n - m
        invariant
            start <= i,
            i <= n,
            n == doc@.len(),
            m == pat@.len(),
            1 <= m <= n,
            find_from(doc@, pat@, start as int) == find_from(doc@, pat@, i as int),
        decreases n - i,
    {
        if matches_at(doc, pat, i) {
            return Some(i);
        }
        proof {
            assert(find_from(doc@, pat@, i as int) == find_from(doc@, pat@, i + 1));
        }
        i = i + 1;
    }
    None
}

} // verus!
