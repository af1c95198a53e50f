//! Pattern matching between a publish pattern and a subscription topic.
//!
//! A pattern selects a subscription when the pattern occurs as a contiguous
//! substring of the subscription's stored topic, compared byte-wise on the
//! UTF-8 encodings of the two strings. The empty pattern therefore matches
//! every topic.

use vstd::prelude::*;
use vstd::utf8::encode_utf8;

verus! {

/// The needle `n` occurs in the haystack `h` starting at position `i`.
pub open spec fn occurs_at(h: Seq<u8>, n: Seq<u8>, i: int) -> bool {
    0 <= i && i + n.len() <= h.len() && h.subrange(i, i + n.len()) == n
}

/// The needle `n` occurs somewhere in the haystack `h`.
pub open spec fn occurs_in(h: Seq<u8>, n: Seq<u8>) -> bool {
    exists|i: int| occurs_at(h, n, i)
}

/// The matching relation of the bus: `pattern` selects a subscription stored
/// under `topic` when the bytes of `pattern` occur contiguously in the bytes
/// of `topic`.
pub open spec fn pattern_matches(pattern: Seq<char>, topic: Seq<char>) -> bool {
    occurs_in(encode_utf8(topic), encode_utf8(pattern))
}

/// Whether `n` occurs in `h` starting exactly at position `i`.
fn bytes_occur_at(h: &[u8], n: &[u8], i: usize) -> (r: bool)
    requires
        i + n@.len() <= h@.len(),
    ensures
        r == occurs_at(h@, n@, i as int),
{
    let h_len: usize = h.len();
    let n_len: usize = n.len();
    let mut k: usize = 0;
    while k < n_len
        invariant
            h_len == h@.len(),
            n_len == n@.len(),
            i + n@.len() <= h@.len(),
            0 <= k <= n_len,
            forall|m: int| 0 <= m < k ==> h@[i + m] == n@[m],
        decreases n_len - k,
    {
        if h[i + k] != n[k] {
            assert(!occurs_at(h@, n@, i as int)) by {
                if h@.subrange(i as int, i + n@.len()) == n@ {
                    assert(h@.subrange(i as int, i + n@.len())[k as int] == h@[i + k]);
                }
            }
            return false;
        }
        k = k + 1;
    }
    assert(h@.subrange(i as int, i + n@.len()) =~= n@);
    true
}

/// Whether `n` occurs anywhere in `h`.
fn bytes_occur_in(h: &[u8], n: &[u8]) -> (r: bool)
    ensures
        r == occurs_in(h@, n@),
{
    let h_len: usize = h.len();
    let n_len: usize = n.len();
    if n_len > h_len {
        assert(forall|i: int| !occurs_at(h@, n@, i));
        return false;
    }
    if n_len == 0 {
        assert(occurs_at(h@, n@, 0)) by {
            assert(h@.subrange(0, 0) =~= n@);
        }
        return true;
    }
    let last: usize = h_len - n_len;
    let mut i: usize = 0;
    while i <= last
        invariant
            h_len == h@.len(),
            n_len == n@.len(),
            1 <= n_len <= h_len,
            last == h_len - n_len,
            0 <= i <= last + 1,
            forall|j: int| 0 <= j < i ==> !occurs_at(h@, n@, j),
        decreases last + 1 - i,
    {
        if bytes_occur_at(h, n, i) {
            return true;
        }
        i = i + 1;
    }
    assert forall|j: int| !occurs_at(h@, n@, j) by {
        if 0 <= j <= last {
            assert(!occurs_at(h@, n@, j));
        }
    }
    false
}

/// Whether `pattern` selects the topic `topic`: true exactly when the bytes
/// of `pattern` occur contiguously in the bytes of `topic`.
pub fn topic_matches(pattern: &str, topic: &str) -> (r: bool)
    ensures
        r == pattern_matches(pattern@, topic@),
{
    bytes_occur_in(topic.as_bytes(), pattern.as_bytes())
}

} // verus!
