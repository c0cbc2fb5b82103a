use vstd::prelude::*;

verus! {

/// `p` occurs in `t` starting at position `i`.
pub open spec fn occurs_at(t: Seq<char>, p: Seq<char>, i: int) -> bool {
    0 <= i && i + p.len() <= t.len() && t.subrange(i, i + p.len()) == p
}

/// `p` occurs somewhere in `t`.
pub open spec fn contains_seq(t: Seq<char>, p: Seq<char>) -> bool {
    exists|i: int| occurs_at(t, p, i)
}

fn matches_at(t: &str, p: &str, i: usize, tlen: usize, plen: usize) -> (r: bool)
    requires
        tlen == t@.len(),
        plen == p@.len(),
        i + plen <= tlen,
    ensures
        r == occurs_at(t@, p@, i as int),
{
    let mut k: usize = 0;
    while k < plen
        invariant
            0 <= k <= plen,
            tlen == t@.len(),
            plen == p@.len(),
            i + plen <= tlen,
            forall|j: int| 0 <= j < k ==> t@[i + j] == p@[j],
        decreases plen - k,
    {
        if t.get_char(i + k) != p.get_char(k) {
            assert(t@.subrange(i as int, i + plen)[k as int] != p@[k as int]);
            return false;
        }
        k = k + 1;
    }
    assert(t@.subrange(i as int, i + plen) =~= p@);
    true
}

/// Whether `text` begins with `prefix`.
pub fn starts_with(text: &str, prefix: &str) -> (r: bool)
    ensures
        r == prefix@.is_prefix_of(text@),
{
    let tlen = text.unicode_len();
    let plen = prefix.unicode_len();
    if plen > tlen {
        return false;
    }
    let r = matches_at(text, prefix, 0, tlen, plen);
    assert(r == (text@.subrange(0, plen as int) =~= prefix@));
    r
}

/// Whether `pat` occurs anywhere in `text`.
pub fn contains_text(text: &str, pat: &str) -> (r: bool)
    ensures
        r == contains_seq(text@, pat@),
{
    let tlen = text.unicode_len();
    let plen = pat.unicode_len();
    if plen > tlen {
        return false;
    }
    let mut i: usize = 0;
    loop
        invariant
            tlen == text@.len(),
            plen == pat@.len(),
            plen <= tlen,
            0 <= i <= tlen - plen,
            forall|j: int| 0 <= j < i ==> !occurs_at(text@, pat@, j),
        decreases tlen - plen - i,
    {
        if matches_at(text, pat, i, tlen, plen) {
            return true;
        }
        if i == tlen - plen {
            return false;
        }
        i = i + 1;
    }
}

} // verus!
