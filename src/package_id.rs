//! Reading a workspace member's directory out of its package id, such as
//! `path+file:///work/app#0.1.0`.
use vstd::prelude::*;

verus! {

/// Whether `pat` occurs in `s` at position `i`.
pub open spec fn matches_at(s: Seq<char>, pat: Seq<char>, i: int) -> bool {
    0 <= i && i + pat.len() <= s.len() && s.subrange(i, i + pat.len()) == pat
}

/// The first position at or after `k` where `pat` occurs in `s`.
pub open spec fn first_match_from(s: Seq<char>, pat: Seq<char>, k: int) -> Option<int>
    decreases s.len() + 1 - k,
{
    if k < 0 || k + pat.len() > s.len() {
        None
    } else if matches_at(s, pat, k) {
        Some(k)
    } else {
        first_match_from(s, pat, k + 1)
    }
}

proof fn lemma_first_match_found(s: Seq<char>, pat: Seq<char>, k: int)
    ensures
        first_match_from(s, pat, k) matches Some(i) ==> matches_at(s, pat, i) && k <= i,
    decreases s.len() + 1 - k,
{
    if !(k < 0 || k + pat.len() > s.len()) && !matches_at(s, pat, k) {
        lemma_first_match_found(s, pat, k + 1);
    }
}

/// The directory that a package id names: what follows `path+file://`, up to
/// the first `#` after it, if any.
pub open spec fn manifest_dir_of(id: Seq<char>) -> Option<Seq<char>> {
    match first_match_from(id, "path+file://"@, 0) {
        Some(i) => {
            let path = id.subrange(i + "path+file://"@.len(), id.len() as int);
            match first_match_from(path, seq!['#'], 0) {
                Some(h) => Some(path.subrange(0, h)),
                None => Some(path),
            }
        },
        None => None,
    }
}

/// Whether `pat` occurs in `s` at position `k`.
fn matches_at_exec(s: &str, s_len: usize, pat: &str, pat_len: usize, k: usize) -> (r: bool)
    requires
        s_len == s@.len(),
        pat_len == pat@.len(),
    ensures
        r == matches_at(s@, pat@, k as int),
{
    if k > s_len || pat_len > s_len - k {
        return false;
    }
    let mut j: usize = 0;
    while j < pat_len
        invariant
            k + pat_len <= s_len,
            s_len == s@.len(),
            pat_len == pat@.len(),
            0 <= j <= pat_len,
            forall|m: int| 0 <= m < j ==> s@[k + m] == pat@[m],
        decreases pat_len - j,
    {
        if s.get_char(k + j) != pat.get_char(j) {
            assert(s@.subrange(k as int, k + pat_len)[j as int] != pat@[j as int]);
            return false;
        }
        j = j + 1;
    }
    assert(s@.subrange(k as int, k + pat_len) =~= pat@);
    true
}

/// The first position at or after `from` where `pat` occurs in `s`.
pub fn find_from(s: &str, pat: &str, from: usize) -> (r: Option<usize>)
    ensures
        match r {
            Some(i) => first_match_from(s@, pat@, from as int) == Some(i as int),
            None => first_match_from(s@, pat@, from as int) is None,
        },
{
    let s_len = s.unicode_len();
    let pat_len = pat.unicode_len();
    if from > s_len || pat_len > s_len - from {
        return None;
    }
    let mut k: usize = from;
    loop
        invariant
            s_len == s@.len(),
            pat_len == pat@.len(),
            pat_len <= s_len,
            from <= k <= s_len - pat_len,
            first_match_from(s@, pat@, from as int) == first_match_from(s@, pat@, k as int),
        decreases s_len - pat_len - k,
    {
        if matches_at_exec(s, s_len, pat, pat_len, k) {
            return Some(k);
        }
        if k == s_len - pat_len {
            assert(first_match_from(s@, pat@, k as int + 1) is None);
            return None;
        }
        k = k + 1;
    }
}

/// The directory of a workspace member's manifest, read from its package id;
/// none where the id names no local path.
pub fn manifest_dir_of_id(id: &str) -> (r: Option<String>)
    ensures
        match r {
            Some(d) => manifest_dir_of(id@) == Some(d@),
            None => manifest_dir_of(id@) is None,
        },
{
    proof {
        reveal_strlit("path+file://");
        reveal_strlit("#");
    }
    let marker = "path+file://";
    match find_from(id, marker, 0) {
        None => None,
        Some(i) => {
            proof {
                lemma_first_match_found(id@, marker@, 0);
            }
            let n = id.unicode_len();
            let path = id.substring_char(i + marker.unicode_len(), n);
            match find_from(path, "#", 0) {
                Some(h) => {
                    assert("#"@ =~= seq!['#']);
                    proof {
                        lemma_first_match_found(path@, "#"@, 0);
                    }
                    Some(path.substring_char(0, h).to_owned())
                },
                None => {
                    assert("#"@ =~= seq!['#']);
                    Some(path.to_owned())
                },
            }
        },
    }
}

} // verus!
