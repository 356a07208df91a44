//! Locating the first occurrence of a character in a character sequence.
//!
//! Both the decimal grammar (the first `.` of a numeric field) and the
//! sentence framing (the first `*` that starts a checksum suffix) are
//! defined in terms of a "first occurrence" position.

use vstd::prelude::*;

verus! {

/// Index of the first occurrence of `c` in `s`, or `s.len()` when `c` does
/// not occur in `s`.
pub open spec fn first_at(s: Seq<char>, c: char) -> int
    decreases s.len(),
{
    if s.len() == 0 {
        0
    } else if s[0] == c {
        0
    } else {
        1 + first_at(s.drop_first(), c)
    }
}

/// `first_at(s, c)` lies within `s` (one past the end when `c` is absent),
/// every position before it differs from `c`, and the position itself holds
/// `c` whenever it lies strictly inside `s`.
pub proof fn lemma_first_at_bounds(s: Seq<char>, c: char)
    ensures
        0 <= first_at(s, c) <= s.len(),
        forall|j: int| 0 <= j < first_at(s, c) ==> s[j] != c,
        first_at(s, c) < s.len() ==> s[first_at(s, c)] == c,
    decreases s.len(),
{
    if s.len() == 0 {
    } else if s[0] == c {
    } else {
        lemma_first_at_bounds(s.drop_first(), c);
        assert forall|j: int| 0 <= j < first_at(s, c) implies s[j] != c by {
            if j > 0 {
                assert(s.drop_first()[j - 1] != c);
            }
        }
    }
}

/// A position `k` with no occurrence of `c` before it, and with `c` at `k`
/// unless `k` is the length, is exactly `first_at(s, c)`.
pub proof fn lemma_first_at_is(s: Seq<char>, c: char, k: int)
    requires
        0 <= k <= s.len(),
        forall|j: int| 0 <= j < k ==> s[j] != c,
        k < s.len() ==> s[k] == c,
    ensures
        first_at(s, c) == k,
    decreases s.len(),
{
    if s.len() == 0 {
    } else if s[0] == c {
        if k > 0 {
            assert(s[0] != c);
        }
    } else {
        assert(k >= 1) by {
            if k == 0 {
                assert(s[0] == c);
            }
        }
        assert forall|j: int| 0 <= j < k - 1 implies s.drop_first()[j] != c by {
            assert(s[j + 1] != c);
        }
        lemma_first_at_is(s.drop_first(), c, k - 1);
    }
}

} // verus!
