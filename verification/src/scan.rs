//! Byte-level pattern scanning: fixed markers searched for inside free-form
//! text lines, as sequences of bytes.

use vstd::prelude::*;

verus! {

/// `pat` occurs in `s` starting exactly at index `i`.
pub open spec fn pattern_at(s: Seq<u8>, pat: Seq<u8>, i: int) -> bool {
    &&& 0 <= i
    &&& i + pat.len() <= s.len()
    &&& forall|k: int| 0 <= k < pat.len() ==> s[i + k] == pat[k]
}

/// `s` holds `pat` somewhere.
pub open spec fn contains_pattern(s: Seq<u8>, pat: Seq<u8>) -> bool {
    exists|i: int| pattern_at(s, pat, i)
}

/// The least index at or after `i` where `pat` occurs in `s`;
/// `s.len()` when there is no occurrence at or after `i`.
pub open spec fn first_pattern_from(s: Seq<u8>, pat: Seq<u8>, i: int) -> int
    decreases s.len() - i when 0 <= i <= s.len()
{
    if i + pat.len() > s.len() {
        s.len() as int
    } else if pattern_at(s, pat, i) {
        i
    } else {
        first_pattern_from(s, pat, i + 1)
    }
}

/// What `first_pattern_from` returns: an index in `[i, s.len()]`, a match
/// where it lands short of the end, and no match anywhere before it.
pub proof fn lemma_first_pattern_from(s: Seq<u8>, pat: Seq<u8>, i: int)
    requires
        0 <= i <= s.len(),
        pat.len() >= 1,
    ensures
        i <= first_pattern_from(s, pat, i) <= s.len(),
        first_pattern_from(s, pat, i) < s.len() ==> pattern_at(s, pat, first_pattern_from(s, pat, i)),
        forall|k: int| i <= k < first_pattern_from(s, pat, i) ==> !pattern_at(s, pat, k),
    decreases s.len() - i,
{
    if i + pat.len() <= s.len() && !pattern_at(s, pat, i) {
        lemma_first_pattern_from(s, pat, i + 1);
    }
}

/// Whether `pat` occurs in `s` exactly at index `i`.
pub fn pattern_matches_at(s: &[u8], pat: &[u8], i: usize) -> (r: bool)
    requires
        i <= s@.len(),
    ensures
        r == pattern_at(s@, pat@, i as int),
{
    let n = s.len();
    if pat.len() > n - i {
        return false;
    }
    let mut k: usize = 0;
    while k < pat.len()
        invariant
            s@.len() == n,
            i + pat@.len() <= n,
            k <= pat@.len(),
            forall|m: int| 0 <= m < k ==> s@[i + m] == pat@[m],
        decreases pat@.len() - k,
    {
        if s[i + k] != pat[k] {
            assert(!pattern_at(s@, pat@, i as int));
            return false;
        }
        k = k + 1;
    }
    true
}

/// The least index at or after `from` where `pat` occurs in `s`;
/// `s.len()` when there is none.
pub fn find_pattern_from(s: &[u8], pat: &[u8], from: usize) -> (r: usize)
    requires
        from <= s@.len(),
        pat@.len() >= 1,
    ensures
        r == first_pattern_from(s@, pat@, from as int),
{
    let mut i: usize = from;
    while pat.len() <= s.len() - i
        invariant
            from <= i <= s@.len(),
            pat@.len() >= 1,
            first_pattern_from(s@, pat@, from as int) == first_pattern_from(s@, pat@, i as int),
        decreases s@.len() - i,
    {
        if pattern_matches_at(s, pat, i) {
            return i;
        }
        i = i + 1;
    }
    s.len()
}

/// Whether `s` holds `pat` anywhere.
pub fn slice_contains_pattern(s: &[u8], pat: &[u8]) -> (r: bool)
    requires
        pat@.len() >= 1,
    ensures
        r == contains_pattern(s@, pat@),
{
    proof {
        lemma_first_pattern_from(s@, pat@, 0);
    }
    let p = find_pattern_from(s, pat, 0);
    if p < s.len() {
        true
    } else {
        proof {
            assert forall|k: int| !pattern_at(s@, pat@, k) by {
                if pattern_at(s@, pat@, k) {
                    assert(0 <= k < s@.len());
                }
            }
        }
        false
    }
}

} // verus!
