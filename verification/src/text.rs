//! Byte-string helpers.
//!
//! Names, paths and type annotations are carried as UTF-8 byte strings
//! (`Vec<u8>`): plain values the engines can compare exactly.

use vstd::prelude::*;

verus! {

/// Exact equality of two byte strings.
pub fn bytes_eq(a: &Vec<u8>, b: &Vec<u8>) -> (r: bool)
    ensures
        r == (a@ == b@),
{
    if a.len() != b.len() {
        return false;
    }
    let mut i: usize = 0;
    while i < a.len()
        invariant
            i <= a@.len(),
            a@.len() == b@.len(),
            forall|k: int| 0 <= k < i ==> a@[k] == b@[k],
        decreases a@.len() - i,
    {
        if a[i] != b[i] {
            return false;
        }
        i += 1;
    }
    proof {
        assert(a@ =~= b@);
    }
    true
}

/// A fresh copy of a byte string.
pub fn copy_bytes(v: &Vec<u8>) -> (r: Vec<u8>)
    ensures
        r@ == v@,
{
    let mut r: Vec<u8> = Vec::new();
    let mut i: usize = 0;
    while i < v.len()
        invariant
            i <= v@.len(),
            r@ =~= v@.take(i as int),
        decreases v@.len() - i,
    {
        r.push(v[i]);
        i += 1;
    }
    proof {
        assert(v@.take(v@.len() as int) =~= v@);
    }
    r
}

/// Whether `needle` occurs as a contiguous run inside `hay`, starting
/// at position `at`.
pub open spec fn matches_at(hay: Seq<u8>, needle: Seq<u8>, at: int) -> bool {
    &&& 0 <= at
    &&& at + needle.len() <= hay.len()
    &&& hay.subrange(at, at + needle.len()) == needle
}

/// Whether `needle` occurs anywhere inside `hay`. The empty needle
/// occurs in every string.
pub open spec fn is_substring(hay: Seq<u8>, needle: Seq<u8>) -> bool {
    exists|at: int| matches_at(hay, needle, at)
}

/// Substring search, used by the name and body-content filters that
/// narrow the candidate set before comparison.
pub fn contains_bytes(hay: &Vec<u8>, needle: &Vec<u8>) -> (r: bool)
    ensures
        r == is_substring(hay@, needle@),
{
    let n = needle.len();
    let h = hay.len();
    if n == 0 {
        proof {
            assert(hay@.subrange(0, 0) =~= needle@);
            assert(matches_at(hay@, needle@, 0));
        }
        return true;
    }
    if n > h {
        proof {
            assert(forall|at: int| !matches_at(hay@, needle@, at));
        }
        return false;
    }
    let mut s: usize = 0;
    while s <= h - n
        invariant
            n <= h,
            h == hay@.len(),
            n == needle@.len(),
            1 <= n,
            s <= h - n + 1,
            forall|at: int| 0 <= at < s ==> !matches_at(hay@, needle@, at),
        decreases h + 1 - n - s,
    {
        let mut k: usize = 0;
        let mut hit = true;
        while k < n && hit
            invariant
                k <= n,
                s + n <= h,
                h == hay@.len(),
                n == needle@.len(),
                hit ==> forall|q: int| 0 <= q < k ==> hay@[s + q] == needle@[q],
                !hit ==> !matches_at(hay@, needle@, s as int),
            decreases n - k,
        {
            if hay[s + k] != needle[k] {
                proof {
                    assert(hay@.subrange(s as int, s + n)[k as int] == hay@[s + k]);
                }
                hit = false;
            }
            k += 1;
        }
        if hit {
            proof {
                assert(hay@.subrange(s as int, s + n) =~= needle@);
                assert(matches_at(hay@, needle@, s as int));
            }
            return true;
        }
        proof {
            assert(!matches_at(hay@, needle@, s as int));
        }
        s += 1;
    }
    proof {
        assert(forall|at: int| s <= at ==> !matches_at(hay@, needle@, at));
    }
    false
}

} // verus!
