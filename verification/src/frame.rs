//! The frame locator: finding the terminator that ends a request line.

use vstd::prelude::*;

verus! {

/// A `CR LF` pair starts at position `i` of `s`.
pub open spec fn crlf_at(s: Seq<u8>, i: int) -> bool {
    &&& 0 <= i
    &&& i + 1 < s.len()
    &&& s[i] == 13
    &&& s[i + 1] == 10
}

/// The position of the first `CR LF` pair of `s`, or `None` if there is none.
pub open spec fn first_crlf(s: Seq<u8>) -> Option<int>
    decreases s.len(),
{
    if s.len() < 2 {
        None
    } else if s[0] == 13 && s[1] == 10 {
        Some(0int)
    } else {
        match first_crlf(s.drop_first()) {
            Some(i) => Some(i + 1),
            None => None,
        }
    }
}

/// `first_crlf` returns exactly the position of the first pair.
pub proof fn lemma_first_crlf(s: Seq<u8>)
    ensures
        match first_crlf(s) {
            Some(i) => crlf_at(s, i) && (forall|j: int| 0 <= j < i ==> !crlf_at(s, j)),
            None => forall|j: int| !crlf_at(s, j),
        },
    decreases s.len(),
{
    if s.len() < 2 {
    } else if s[0] == 13 && s[1] == 10 {
    } else {
        let t = s.drop_first();
        lemma_first_crlf(t);
        assert(forall|j: int| 1 <= j && crlf_at(s, j) ==> crlf_at(t, j - 1));
        assert(forall|j: int| #[trigger] crlf_at(t, j) ==> crlf_at(s, j + 1));
        match first_crlf(t) {
            Some(i) => {
                assert(crlf_at(s, i + 1));
                assert forall|j: int| 0 <= j < i + 1 implies !crlf_at(s, j) by {
                    if 1 <= j && crlf_at(s, j) {
                        assert(crlf_at(t, j - 1));
                    }
                }
            },
            None => {
                assert forall|j: int| !crlf_at(s, j) by {
                    if 1 <= j && crlf_at(s, j) {
                        assert(crlf_at(t, j - 1));
                    }
                }
            },
        }
    }
}

/// A position holding the first pair pins `first_crlf` down.
pub proof fn lemma_first_crlf_at(s: Seq<u8>, i: int)
    requires
        crlf_at(s, i),
        forall|j: int| 0 <= j < i ==> !crlf_at(s, j),
    ensures
        first_crlf(s) == Some(i),
{
    lemma_first_crlf(s);
    match first_crlf(s) {
        Some(k) => {
            if k < i {
                assert(!crlf_at(s, k));
            }
            if i < k {
                assert(!crlf_at(s, i));
            }
        },
        None => {
            assert(!crlf_at(s, i));
        },
    }
}

/// With no pair anywhere, `first_crlf` finds none.
pub proof fn lemma_first_crlf_none(s: Seq<u8>)
    requires
        forall|j: int| !crlf_at(s, j),
    ensures
        first_crlf(s) is None,
{
    lemma_first_crlf(s);
    match first_crlf(s) {
        Some(k) => {
            assert(!crlf_at(s, k));
        },
        None => {},
    }
}

/// Returns the offset of the first `CR LF` terminator in `buf`, or `None` if
/// there is none. The scan covers the entire slice, including a terminator
/// occupying its final two bytes; inputs shorter than two bytes never hold one.
pub fn next_line_break(buf: &[u8]) -> (r: Option<usize>)
    ensures
        match r {
            Some(i) => crlf_at(buf@, i as int) && (forall|j: int|
                0 <= j < i ==> !crlf_at(buf@, j)),
            None => forall|j: int| !crlf_at(buf@, j),
        },
{
    if buf.len() < 2 {
        return None;
    }
    let mut idx: usize = 0;
    loop
        invariant
            2 <= buf@.len(),
            idx <= buf@.len() - 1,
            forall|j: int| 0 <= j < idx ==> !crlf_at(buf@, j),
        decreases buf@.len() - idx,
    {
        if idx >= buf.len() - 1 {
            return None;
        }
        if buf[idx] == 13 && buf[idx + 1] == 10 {
            return Some(idx);
        }
        idx = idx + 1;
    }
}

} // verus!
