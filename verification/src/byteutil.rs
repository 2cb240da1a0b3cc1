use vstd::prelude::*;

verus! {

/// `p` occurs in `s` starting at position `i`.
pub open spec fn bytes_match_at(s: Seq<u8>, p: Seq<u8>, i: int) -> bool {
    0 <= i && i + p.len() <= s.len() && s.subrange(i, i + p.len()) == p
}

/// `p` occurs somewhere in `s`.
pub open spec fn bytes_contain(s: Seq<u8>, p: Seq<u8>) -> bool {
    exists|i: int| bytes_match_at(s, p, i)
}

/// The first position at or after `i` where `p` occurs in `s`, if any.
pub open spec fn find_from(s: Seq<u8>, p: Seq<u8>, i: int) -> Option<int>
    decreases s.len() + 1 - i,
{
    if i + p.len() > s.len() {
        None
    } else if bytes_match_at(s, p, i) {
        Some(i)
    } else {
        find_from(s, p, i + 1)
    }
}

/// The first position where `p` occurs in `s`, if any.
pub open spec fn spec_find(s: Seq<u8>, p: Seq<u8>) -> Option<int> {
    find_from(s, p, 0)
}

/// `s` with the first occurrence of `p` replaced by `r`; `s` itself when `p`
/// does not occur.
pub open spec fn spec_replace_first(s: Seq<u8>, p: Seq<u8>, r: Seq<u8>) -> Seq<u8> {
    match spec_find(s, p) {
        Some(i) => s.subrange(0, i) + r + s.subrange(i + p.len(), s.len() as int),
        None => s,
    }
}

proof fn lemma_find_from_none(s: Seq<u8>, p: Seq<u8>, i: int)
    requires
        0 <= i,
        find_from(s, p, i) is None,
        forall|k: int| 0 <= k < i ==> !bytes_match_at(s, p, k),
    ensures
        !bytes_contain(s, p),
    decreases s.len() + 1 - i,
{
    if i + p.len() > s.len() {
        assert forall|k: int| !bytes_match_at(s, p, k) by {
            if k >= i {
                assert(k + p.len() > s.len());
            }
        }
    } else {
        lemma_find_from_none(s, p, i + 1);
    }
}

fn bytes_match_at_exec(s: &Vec<u8>, p: &Vec<u8>, i: usize) -> (r: bool)
    requires
        i + p@.len() <= s@.len(),
    ensures
        r == bytes_match_at(s@, p@, i as int),
{
    let slen = s.len();
    let mut j: usize = 0;
    while j < p.len()
        invariant
            0 <= j <= p@.len(),
            i + p@.len() <= s@.len(),
            slen == s@.len(),
            forall|k: int| 0 <= k < j ==> s@[i + k] == p@[k],
        decreases p@.len() - j,
    {
        if s[i + j] != p[j] {
            assert(s@.subrange(i as int, i + p@.len())[j as int] != p@[j as int]);
            return false;
        }
        j += 1;
    }
    assert(s@.subrange(i as int, i + p@.len()) =~= p@);
    true
}

/// Finds the first occurrence of `p` in `s`.
pub fn find_bytes(s: &Vec<u8>, p: &Vec<u8>) -> (r: Option<usize>)
    ensures
        match r {
            Some(i) => spec_find(s@, p@) == Some(i as int),
            None => spec_find(s@, p@) is None && !bytes_contain(s@, p@),
        },
{
    let slen = s.len();
    let plen = p.len();
    if plen > slen {
        proof {
            lemma_find_from_none(s@, p@, 0);
        }
        return None;
    }
    if plen == 0 {
        assert(s@.subrange(0, 0) =~= p@);
        assert(bytes_match_at(s@, p@, 0));
        return Some(0);
    }
    let bound = slen - plen;
    let mut i: usize = 0;
    while i <= bound
        invariant
            slen == s@.len(),
            plen == p@.len(),
            1 <= plen <= slen,
            bound == slen - plen,
            0 <= i <= bound + 1,
            spec_find(s@, p@) == find_from(s@, p@, i as int),
            forall|k: int| 0 <= k < i ==> !bytes_match_at(s@, p@, k),
        decreases bound + 1 - i,
    {
        if bytes_match_at_exec(s, p, i) {
            return Some(i);
        }
        i += 1;
    }
    proof {
        lemma_find_from_none(s@, p@, i as int);
    }
    None
}

/// True when `p` occurs in `s`.
pub fn contains_bytes(s: &Vec<u8>, p: &Vec<u8>) -> (r: bool)
    ensures
        r == bytes_contain(s@, p@),
{
    match find_bytes(s, p) {
        Some(i) => {
            assert(bytes_match_at(s@, p@, i as int)) by {
                lemma_find_from_match(s@, p@, 0, i as int);
            }
            true
        },
        None => false,
    }
}

proof fn lemma_find_from_match(s: Seq<u8>, p: Seq<u8>, i: int, f: int)
    requires
        find_from(s, p, i) == Some(f),
    ensures
        bytes_match_at(s, p, f),
        i <= f,
    decreases s.len() + 1 - i,
{
    if i + p.len() > s.len() {
    } else if bytes_match_at(s, p, i) {
    } else {
        lemma_find_from_match(s, p, i + 1, f);
    }
}

/// Copies a byte string.
pub fn clone_bytes(v: &Vec<u8>) -> (r: Vec<u8>)
    ensures
        r@ == v@,
{
    let mut r: Vec<u8> = Vec::new();
    let mut i: usize = 0;
    while i < v.len()
        invariant
            0 <= i <= v@.len(),
            r@ == v@.subrange(0, i as int),
        decreases v@.len() - i,
    {
        r.push(v[i]);
        assert(r@ =~= v@.subrange(0, i + 1));
        i += 1;
    }
    assert(r@ =~= v@);
    r
}

/// Appends the bytes of `src` to `dst`.
pub fn push_bytes(dst: &mut Vec<u8>, src: &Vec<u8>)
    ensures
        final(dst)@ == old(dst)@ + src@,
{
    let mut i: usize = 0;
    while i < src.len()
        invariant
            0 <= i <= src@.len(),
            dst@ == old(dst)@ + src@.subrange(0, i as int),
        decreases src@.len() - i,
    {
        dst.push(src[i]);
        assert(dst@ =~= old(dst)@ + src@.subrange(0, i + 1));
        i += 1;
    }
    assert(dst@ =~= old(dst)@ + src@);
}

/// Replaces the first occurrence of `p` in `s` by `rep`; hands `s` back
/// unchanged when `p` does not occur.
pub fn replace_first(s: &Vec<u8>, p: &Vec<u8>, rep: &Vec<u8>) -> (r: Vec<u8>)
    ensures
        r@ == spec_replace_first(s@, p@, rep@),
{
    match find_bytes(s, p) {
        None => clone_bytes(s),
        Some(i) => {
            proof {
                lemma_find_from_match(s@, p@, 0, i as int);
            }
            let slen = s.len();
            assert(i + p@.len() <= slen);
            let mut r: Vec<u8> = Vec::new();
            let mut k: usize = 0;
            while k < i
                invariant
                    0 <= k <= i,
                    i + p@.len() <= s@.len(),
                    r@ == s@.subrange(0, k as int),
                decreases i - k,
            {
                r.push(s[k]);
                assert(r@ =~= s@.subrange(0, k + 1));
                k += 1;
            }
            push_bytes(&mut r, rep);
            let mut k: usize = i + p.len();
            while k < s.len()
                invariant
                    i + p@.len() <= k <= s@.len(),
                    r@ == s@.subrange(0, i as int) + rep@ + s@.subrange(
                        i + p@.len(),
                        k as int,
                    ),
                decreases s@.len() - k,
            {
                r.push(s[k]);
                assert(r@ =~= s@.subrange(0, i as int) + rep@ + s@.subrange(
                    i + p@.len(),
                    k + 1,
                ));
                k += 1;
            }
            assert(r@ =~= spec_replace_first(s@, p@, rep@));
            r
        },
    }
}

} // verus!
