//! Character-sequence helpers shared by the transform pipeline and the
//! store layer: conversions between `String` and `Vec<char>`, equality,
//! and substring search.

use vstd::prelude::*;
use vstd::std_specs::iter::IteratorSpec;

verus! {

broadcast use vstd::string::group_string_axioms;

/// The characters of `s`, in order.
pub fn to_chars(s: &str) -> (r: Vec<char>)
    ensures
        r@ == s@,
{
    let mut it = s.chars();
    let mut r: Vec<char> = Vec::new();
    proof {
        assert(r@ + it.remaining() =~= s@);
    }
    loop
        invariant
            r@ + it.remaining() == s@,
            it.obeys_prophetic_iter_laws(),
            it.decrease() is Some,
        ensures
            r@ == s@,
        decreases it.decrease()->0,
    {
        match it.next() {
            Some(c) => {
                r.push(c);
                proof {
                    assert(r@ + it.remaining() =~= s@);
                }
            },
            None => {
                proof {
                    assert(r@ =~= s@);
                }
                break;
            },
        }
    }
    r
}

/// Relies on `String`'s `FromIterator` over `char`: collecting the
/// characters yields the string holding exactly those characters.
#[verifier::external_body]
pub fn chars_to_string(v: &Vec<char>) -> (r: String)
    ensures
        r@ == v@,
{
    v.iter().collect()
}

/// Whether two string slices hold the same characters.
pub fn str_eq(a: &str, b: &str) -> (r: bool)
    ensures
        r == (a@ == b@),
{
    let sa = a.to_owned();
    let sb = b.to_owned();
    sa == sb
}

/// `n` occurs in `h` starting at index `i`.
pub open spec fn match_at(h: Seq<char>, n: Seq<char>, i: int) -> bool {
    &&& 0 <= i
    &&& i + n.len() <= h.len()
    &&& h.subrange(i, i + n.len()) == n
}

/// The first index at or after `i` where `n` occurs in `h`.
pub open spec fn spec_find_from(h: Seq<char>, n: Seq<char>, i: int) -> Option<int>
    recommends
        0 <= i,
    decreases h.len() + 1 - i when 0 <= i
{
    if i + n.len() > h.len() {
        None
    } else if match_at(h, n, i) {
        Some(i)
    } else {
        spec_find_from(h, n, i + 1)
    }
}

/// What `spec_find_from` returns: the first match at or after `from`,
/// or the absence of any.
pub proof fn lemma_find_from_some(h: Seq<char>, n: Seq<char>, from: int)
    requires
        0 <= from,
    ensures
        match spec_find_from(h, n, from) {
            Some(k) => {
                &&& from <= k
                &&& k + n.len() <= h.len()
                &&& match_at(h, n, k)
                &&& forall|j: int| from <= j < k ==> !match_at(h, n, j)
            },
            None => forall|j: int| from <= j ==> !match_at(h, n, j),
        },
    decreases h.len() + 1 - from,
{
    if from + n.len() > h.len() {
        assert forall|j: int| from <= j implies !match_at(h, n, j) by {
            assert(j + n.len() >= from + n.len());
        }
    } else if match_at(h, n, from) {
    } else {
        lemma_find_from_some(h, n, from + 1);
    }
}

/// The characters of `h` from `a` to `b`.
pub fn sub_vec(h: &Vec<char>, a: usize, b: usize) -> (r: Vec<char>)
    requires
        a <= b <= h@.len(),
    ensures
        r@ == h@.subrange(a as int, b as int),
{
    let mut r: Vec<char> = Vec::new();
    let mut j: usize = a;
    while j < b
        invariant
            a <= j <= b <= h@.len(),
            r@ == h@.subrange(a as int, j as int),
        decreases b - j,
    {
        r.push(h[j]);
        proof {
            assert(r@ =~= h@.subrange(a as int, j + 1));
        }
        j += 1;
    }
    r
}

/// A one-character needle.
pub fn char_vec(c: char) -> (r: Vec<char>)
    ensures
        r@ == seq![c],
{
    let mut r: Vec<char> = Vec::new();
    r.push(c);
    proof {
        assert(r@ =~= seq![c]);
    }
    r
}

/// Append a copy of `v` to `out`.
pub fn extend_chars(out: &mut Vec<char>, v: &Vec<char>)
    ensures
        final(out)@ == old(out)@ + v@,
{
    let ghost out0 = out@;
    let n = v.len();
    let mut j: usize = 0;
    while j < n
        invariant
            0 <= j <= n,
            n == v@.len(),
            out@ == out0 + v@.take(j as int),
        decreases n - j,
    {
        out.push(v[j]);
        proof {
            assert(out@ =~= out0 + v@.take(j + 1));
        }
        j += 1;
    }
    proof {
        assert(out0 + v@.take(n as int) =~= out0 + v@);
    }
}

/// Whether `n` occurs in `h` at index `i` (executable form of `match_at`).
pub fn is_match_at(h: &Vec<char>, n: &Vec<char>, i: usize) -> (r: bool)
    requires
        i + n@.len() <= h@.len(),
    ensures
        r == match_at(h@, n@, i as int),
{
    let hlen = h.len();
    let mut j: usize = 0;
    while j < n.len()
        invariant
            0 <= j <= n@.len(),
            i + n@.len() <= h@.len(),
            h@.len() == hlen,
            forall|k: int| 0 <= k < j ==> h@[i + k] == n@[k],
        decreases n@.len() - j,
    {
        if h[i + j] != n[j] {
            proof {
                assert(h@.subrange(i as int, i + n@.len())[j as int] == h@[i + j]);
            }
            return false;
        }
        j += 1;
    }
    proof {
        assert(h@.subrange(i as int, i + n@.len()) =~= n@);
    }
    true
}

/// The first occurrence of `n` in `h` at or after `from`, matching
/// `spec_find_from`.
pub fn find_from(h: &Vec<char>, n: &Vec<char>, from: usize) -> (r: Option<usize>)
    requires
        from <= h@.len(),
    ensures
        match r {
            Some(j) => from <= j && spec_find_from(h@, n@, from as int) == Some(j as int),
            None => spec_find_from(h@, n@, from as int) is None,
        },
{
    let hlen = h.len();
    let mut i: usize = from;
    loop
        invariant
            from <= i <= hlen,
            h@.len() == hlen,
            spec_find_from(h@, n@, from as int) == spec_find_from(h@, n@, i as int),
        decreases hlen - i,
    {
        if n.len() > hlen - i {
            return None;
        }
        if is_match_at(h, n, i) {
            return Some(i);
        }
        proof {
            if n@.len() == 0 {
                assert(h@.subrange(i as int, i as int) =~= n@);
            }
        }
        i += 1;
    }
}

} // verus!
