//! Byte search over a slice: what the first and the last occurrence of a
//! byte are, and the searches themselves.
use vstd::prelude::*;

verus! {

/// `s` holds the byte `b` somewhere.
pub open spec fn contains_byte(s: Seq<u8>, b: u8) -> bool {
    exists|i: int| 0 <= i < s.len() && s[i] == b
}

/// `i` is the position of the first `b` in `s`.
pub open spec fn is_first_index(s: Seq<u8>, b: u8, i: int) -> bool {
    &&& 0 <= i < s.len()
    &&& s[i] == b
    &&& forall|k: int| 0 <= k < i ==> s[k] != b
}

/// `i` is the position of the last `b` in `s`.
pub open spec fn is_last_index(s: Seq<u8>, b: u8, i: int) -> bool {
    &&& 0 <= i < s.len()
    &&& s[i] == b
    &&& forall|k: int| i < k < s.len() ==> s[k] != b
}

/// The position of the first `b` in `s` (meaningful when `s` holds one).
pub open spec fn first_index(s: Seq<u8>, b: u8) -> int {
    choose|i: int| is_first_index(s, b, i)
}

/// The position of the last `b` in `s` (meaningful when `s` holds one).
pub open spec fn last_index(s: Seq<u8>, b: u8) -> int {
    choose|i: int| is_last_index(s, b, i)
}

/// A position that is first is the first position.
pub proof fn lemma_first_index_unique(s: Seq<u8>, b: u8, i: int)
    requires
        is_first_index(s, b, i),
    ensures
        first_index(s, b) == i,
{
    let f = first_index(s, b);
    assert(is_first_index(s, b, f));
    if f < i {
        assert(s[f] != b);
    } else if i < f {
        assert(s[i] != b);
    }
}

/// A position that is last is the last position.
pub proof fn lemma_last_index_unique(s: Seq<u8>, b: u8, i: int)
    requires
        is_last_index(s, b, i),
    ensures
        last_index(s, b) == i,
{
    let l = last_index(s, b);
    assert(is_last_index(s, b, l));
    if l < i {
        assert(s[i] != b);
    } else if i < l {
        assert(s[l] != b);
    }
}

/// A sequence that holds `b` has a first `b`.
pub proof fn lemma_first_index_exists(s: Seq<u8>, b: u8)
    requires
        contains_byte(s, b),
    ensures
        is_first_index(s, b, first_index(s, b)),
    decreases s.len(),
{
    let t = s.drop_last();
    if contains_byte(t, b) {
        lemma_first_index_exists(t, b);
        let f = first_index(t, b);
        assert forall|k: int| 0 <= k < f implies s[k] != b by {
            assert(t[k] == s[k]);
        }
        assert(is_first_index(s, b, f));
    } else {
        let i = choose|i: int| 0 <= i < s.len() && s[i] == b;
        if i < s.len() - 1 {
            assert(t[i] == b);
        }
        assert forall|k: int| 0 <= k < s.len() - 1 implies s[k] != b by {
            assert(t[k] == s[k]);
        }
        assert(is_first_index(s, b, s.len() - 1));
    }
}

/// A sequence that holds `b` has a last `b`.
pub proof fn lemma_last_index_exists(s: Seq<u8>, b: u8)
    requires
        contains_byte(s, b),
    ensures
        is_last_index(s, b, last_index(s, b)),
    decreases s.len(),
{
    let t = s.drop_last();
    if s.last() == b {
        assert(is_last_index(s, b, s.len() - 1));
    } else {
        let i = choose|i: int| 0 <= i < s.len() && s[i] == b;
        assert(t[i] == b);
        lemma_last_index_exists(t, b);
        let l = last_index(t, b);
        assert forall|k: int| l < k < s.len() implies s[k] != b by {
            if k < s.len() - 1 {
                assert(t[k] == s[k]);
            }
        }
        assert(is_last_index(s, b, l));
    }
}

/// Relies on memchr::memchr: the index of the first occurrence of `needle`
/// in `haystack`, or `None` when there is none.
#[verifier::external_body]
pub(crate) fn find_first(needle: u8, haystack: &[u8]) -> (r: Option<usize>)
    ensures
        match r {
            Some(i) => is_first_index(haystack@, needle, i as int),
            None => !contains_byte(haystack@, needle),
        },
{
    memchr::memchr(needle, haystack)
}

/// Relies on memchr::memrchr: the index of the last occurrence of `needle`
/// in `haystack`, or `None` when there is none.
#[verifier::external_body]
pub(crate) fn find_last(needle: u8, haystack: &[u8]) -> (r: Option<usize>)
    ensures
        match r {
            Some(i) => is_last_index(haystack@, needle, i as int),
            None => !contains_byte(haystack@, needle),
        },
{
    memchr::memrchr(needle, haystack)
}

} // verus!
