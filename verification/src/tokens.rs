//! Whitespace tokenization of a request line.
//!
//! The request line is split on runs of ASCII whitespace; the first token is
//! the method, the second the path, and anything after the second token (such
//! as a protocol version) is ignored.

use vstd::prelude::*;

verus! {

/// ASCII whitespace: space, tab, line feed, form feed, carriage return.
pub open spec fn is_ws(c: char) -> bool {
    c == ' ' || c == '\t' || c == '\n' || c == '\x0c' || c == '\r'
}

/// `s` without its leading whitespace.
pub open spec fn skip_ws(s: Seq<char>) -> Seq<char>
    decreases s.len(),
{
    if s.len() > 0 && is_ws(s[0]) {
        skip_ws(s.drop_first())
    } else {
        s
    }
}

/// The longest whitespace-free prefix of `s`.
pub open spec fn take_tok(s: Seq<char>) -> Seq<char>
    decreases s.len(),
{
    if s.len() > 0 && !is_ws(s[0]) {
        seq![s[0]] + take_tok(s.drop_first())
    } else {
        Seq::empty()
    }
}

/// `s` without its longest whitespace-free prefix.
pub open spec fn drop_tok(s: Seq<char>) -> Seq<char>
    decreases s.len(),
{
    if s.len() > 0 && !is_ws(s[0]) {
        drop_tok(s.drop_first())
    } else {
        s
    }
}

/// The first whitespace-separated token of a line: the method token.
pub open spec fn method_tok(line: Seq<char>) -> Seq<char> {
    take_tok(skip_ws(line))
}

/// The second whitespace-separated token of a line: the path token.
pub open spec fn path_tok(line: Seq<char>) -> Seq<char> {
    take_tok(skip_ws(drop_tok(skip_ws(line))))
}

/// `s` without its trailing whitespace.
pub open spec fn trim_end(s: Seq<char>) -> Seq<char>
    decreases s.len(),
{
    if s.len() > 0 && is_ws(s.last()) {
        trim_end(s.drop_last())
    } else {
        s
    }
}

/// `s` without its leading and trailing whitespace.
pub open spec fn trim(s: Seq<char>) -> Seq<char> {
    trim_end(skip_ws(s))
}

/// If the characters of `s` from `k` on are whitespace and the one before
/// `k`, if any, is not, trimming the end keeps exactly the first `k`.
pub proof fn lemma_trim_end(s: Seq<char>, k: int)
    requires
        0 <= k <= s.len(),
        forall|i: int| k <= i < s.len() ==> is_ws(s[i]),
        k == 0 || !is_ws(s[k - 1]),
    ensures
        trim_end(s) =~= s.take(k),
    decreases s.len(),
{
    if k == s.len() {
        assert(s.take(k) =~= s);
    } else {
        lemma_trim_end(s.drop_last(), k);
        assert(s.drop_last().take(k) =~= s.take(k));
    }
}

/// If the first `k` characters of `s` are whitespace and the next one, if
/// any, is not, then skipping whitespace drops exactly those `k` characters.
pub proof fn lemma_skip_ws(s: Seq<char>, k: int)
    requires
        0 <= k <= s.len(),
        forall|i: int| 0 <= i < k ==> is_ws(s[i]),
        k == s.len() || !is_ws(s[k]),
    ensures
        skip_ws(s) =~= s.skip(k),
    decreases k,
{
    if k == 0 {
        assert(s.skip(0) =~= s);
    } else {
        lemma_skip_ws(s.drop_first(), k - 1);
        assert(s.drop_first().skip(k - 1) =~= s.skip(k));
    }
}

/// If the first `k` characters of `s` are not whitespace and the next one, if
/// any, is, then the token is exactly those `k` characters.
pub proof fn lemma_take_drop_tok(s: Seq<char>, k: int)
    requires
        0 <= k <= s.len(),
        forall|i: int| 0 <= i < k ==> !is_ws(s[i]),
        k == s.len() || is_ws(s[k]),
    ensures
        take_tok(s) =~= s.take(k),
        drop_tok(s) =~= s.skip(k),
    decreases k,
{
    if k == 0 {
        assert(s.take(0) =~= Seq::<char>::empty());
        assert(s.skip(0) =~= s);
    } else {
        lemma_take_drop_tok(s.drop_first(), k - 1);
        assert(seq![s[0]] + s.drop_first().take(k - 1) =~= s.take(k));
        assert(s.drop_first().skip(k - 1) =~= s.skip(k));
    }
}

/// Returns the position where the whitespace run starting at `from` ends.
pub fn scan_ws(line: &str, len: usize, from: usize) -> (r: usize)
    requires
        len == line@.len(),
        from <= len,
    ensures
        from <= r <= len,
        forall|i: int| from <= i < r ==> is_ws(line@[i]),
        r == len || !is_ws(line@[r as int]),
{
    let mut i: usize = from;
    loop
        invariant
            len == line@.len(),
            from <= i <= len,
            forall|j: int| from <= j < i ==> is_ws(line@[j]),
        decreases len - i,
    {
        if i == len {
            return i;
        }
        let c = line.get_char(i);
        if !(c == ' ' || c == '\t' || c == '\n' || c == '\x0c' || c == '\r') {
            return i;
        }
        i = i + 1;
    }
}

/// Returns the position where the whitespace-free run starting at `from` ends.
pub fn scan_tok(line: &str, len: usize, from: usize) -> (r: usize)
    requires
        len == line@.len(),
        from <= len,
    ensures
        from <= r <= len,
        forall|i: int| from <= i < r ==> !is_ws(line@[i]),
        r == len || is_ws(line@[r as int]),
{
    let mut i: usize = from;
    loop
        invariant
            len == line@.len(),
            from <= i <= len,
            forall|j: int| from <= j < i ==> !is_ws(line@[j]),
        decreases len - i,
    {
        if i == len {
            return i;
        }
        let c = line.get_char(i);
        if c == ' ' || c == '\t' || c == '\n' || c == '\x0c' || c == '\r' {
            return i;
        }
        i = i + 1;
    }
}

/// A line built as `GET`, one space, and a whitespace-free non-empty path has
/// that method token and that path token.
pub proof fn lemma_simple_request_line(p: Seq<char>)
    requires
        p.len() > 0,
        forall|i: int| 0 <= i < p.len() ==> !is_ws(p[i]),
    ensures
        method_tok("GET "@ + p) == "GET"@,
        path_tok("GET "@ + p) == p,
{
    reveal_strlit("GET ");
    reveal_strlit("GET");
    let line = "GET "@ + p;
    lemma_skip_ws(line, 0);
    lemma_take_drop_tok(line, 3);
    assert(line.take(3) =~= "GET"@);
    assert(method_tok(line) == "GET"@);
    lemma_skip_ws(line.skip(3), 1);
    assert(line.skip(3).skip(1) =~= p);
    lemma_take_drop_tok(p, p.len() as int);
    assert(p.take(p.len() as int) =~= p);
    assert(path_tok(line) == p);
}

} // verus!
