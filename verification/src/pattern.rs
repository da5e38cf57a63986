//! The restricted wildcard matcher used by key enumeration.
//!
//! A pattern with no `*` requires exact equality. A pattern with a `*`
//! is split around its first `*` into a prefix and a suffix; a key
//! matches when it starts with the prefix and ends with the suffix,
//! which may overlap on short keys. Any `*` after the first is matched
//! literally as part of the suffix. The pattern `"*"` matches every
//! key.

use vstd::prelude::*;
use vstd::string::StrSliceExecFns;

use crate::text::str_eq;

verus! {

/// Index of the first `*` in `p`, or `p.len()` when there is none.
pub open spec fn first_star(p: Seq<char>) -> int
    decreases p.len(),
{
    if p.len() == 0 {
        0
    } else if p[0] == '*' {
        0
    } else {
        1 + first_star(p.subrange(1, p.len() as int))
    }
}

/// `first_star` is in range, lands on a `*` when one exists, and
/// nothing before it is a `*`.
pub proof fn lemma_first_star(p: Seq<char>)
    ensures
        0 <= first_star(p) <= p.len(),
        first_star(p) < p.len() ==> p[first_star(p)] == '*',
        forall|j: int| 0 <= j < first_star(p) ==> p[j] != '*',
    decreases p.len(),
{
    if p.len() > 0 && p[0] != '*' {
        let q = p.subrange(1, p.len() as int);
        lemma_first_star(q);
        assert forall|j: int| 0 <= j < first_star(p) implies p[j] != '*' by {
            if j > 0 {
                assert(q[j - 1] == p[j]);
                assert(q[j - 1] != '*');
            }
        }
    }
}

/// Whether key `k` matches pattern `p`.
pub open spec fn spec_pattern_matches(k: Seq<char>, p: Seq<char>) -> bool {
    let i = first_star(p);
    if i == p.len() {
        k == p
    } else {
        p.subrange(0, i).is_prefix_of(k) && p.subrange(i + 1, p.len() as int).is_suffix_of(k)
    }
}

/// The position scanned to is `first_star` when nothing before it is a
/// `*` and it holds one or is the end.
proof fn lemma_first_star_is(p: Seq<char>, i: int)
    requires
        0 <= i <= p.len(),
        forall|j: int| 0 <= j < i ==> p[j] != '*',
        i < p.len() ==> p[i] == '*',
    ensures
        first_star(p) == i,
    decreases p.len(),
{
    if p.len() == 0 {
    } else if i == 0 {
    } else {
        let q = p.subrange(1, p.len() as int);
        assert(forall|j: int| 0 <= j < q.len() ==> q[j] == p[j + 1]);
        lemma_first_star_is(q, i - 1);
    }
}

/// Index of the first `*` in `pattern`, or its length when none.
fn find_star(pattern: &str) -> (r: usize)
    ensures
        r == first_star(pattern@),
{
    let plen = pattern.unicode_len();
    let mut i: usize = 0;
    while i < plen
        invariant
            i <= plen,
            plen == pattern@.len(),
            forall|j: int| 0 <= j < i ==> pattern@[j] != '*',
        decreases plen - i,
    {
        if pattern.get_char(i) == '*' {
            proof {
                lemma_first_star_is(pattern@, i as int);
            }
            return i;
        }
        i += 1;
    }
    proof {
        lemma_first_star_is(pattern@, plen as int);
    }
    plen
}

/// Whether `k` starts with the first `n` characters of `p`.
fn starts_with_prefix(k: &str, p: &str, n: usize) -> (r: bool)
    requires
        n <= p@.len(),
    ensures
        r == p@.subrange(0, n as int).is_prefix_of(k@),
{
    let klen = k.unicode_len();
    if n > klen {
        return false;
    }
    let mut j: usize = 0;
    while j < n
        invariant
            j <= n,
            n <= klen,
            n <= p@.len(),
            klen == k@.len(),
            forall|l: int| 0 <= l < j ==> k@[l] == p@[l],
        decreases n - j,
    {
        if k.get_char(j) != p.get_char(j) {
            proof {
                assert(p@.subrange(0, n as int)[j as int] == p@[j as int]);
                assert(k@.subrange(0, n as int)[j as int] == k@[j as int]);
            }
            return false;
        }
        j += 1;
    }
    proof {
        assert(p@.subrange(0, n as int) =~= k@.subrange(0, n as int));
    }
    true
}

/// Whether `k` ends with the characters of `p` from `start` on.
fn ends_with_suffix(k: &str, p: &str, start: usize) -> (r: bool)
    requires
        start <= p@.len(),
    ensures
        r == p@.subrange(start as int, p@.len() as int).is_suffix_of(k@),
{
    let plen = p.unicode_len();
    let klen = k.unicode_len();
    let n = plen - start;
    if n > klen {
        return false;
    }
    let koff = klen - n;
    let mut j: usize = 0;
    while j < n
        invariant
            j <= n,
            n == p@.len() - start,
            start <= p@.len(),
            plen == p@.len(),
            klen == k@.len(),
            koff == klen - n,
            n <= klen,
            forall|l: int| 0 <= l < j ==> k@[koff + l] == #[trigger] p@[start + l],
        decreases n - j,
    {
        if k.get_char(koff + j) != p.get_char(start + j) {
            proof {
                assert(p@.subrange(start as int, plen as int)[j as int] == p@[start + j]);
                assert(k@.subrange(koff as int, klen as int)[j as int] == k@[koff + j]);
            }
            return false;
        }
        j += 1;
    }
    proof {
        assert forall|l: int| 0 <= l < n implies p@.subrange(start as int, plen as int)[l]
            == k@.subrange(koff as int, klen as int)[l] by {
            assert(k@[koff + l] == p@[start + l]);
        }
        assert(p@.subrange(start as int, p@.len() as int) =~= k@.subrange(
            koff as int,
            klen as int,
        ));
    }
    true
}

/// Whether `key` matches `pattern`, per [`spec_pattern_matches`].
pub fn pattern_matches(key: &str, pattern: &str) -> (r: bool)
    ensures
        r == spec_pattern_matches(key@, pattern@),
{
    proof {
        lemma_first_star(pattern@);
    }
    let plen = pattern.unicode_len();
    let i = find_star(pattern);
    if i == plen {
        str_eq(key, pattern)
    } else {
        if !starts_with_prefix(key, pattern, i) {
            return false;
        }
        ends_with_suffix(key, pattern, i + 1)
    }
}

} // verus!
