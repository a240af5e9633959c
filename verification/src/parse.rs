//! The request parser: from framed bytes to a structured request.

use vstd::prelude::*;
use vstd::slice::slice_subrange;
use vstd::string::StrSliceExecFns;
use vstd::utf8::decode_utf8;
use vstd::utf8::valid_utf8;

use crate::error::HttpError;
use crate::frame::crlf_at;
use crate::frame::first_crlf;
use crate::frame::lemma_first_crlf_at;
use crate::frame::lemma_first_crlf_none;
use crate::frame::next_line_break;
use crate::headers::HeaderMap;
use crate::method::Method;
use crate::request::Request;
use crate::tokens::drop_tok;
use crate::tokens::is_ws;
use crate::tokens::lemma_skip_ws;
use crate::tokens::lemma_take_drop_tok;
use crate::tokens::lemma_trim_end;
use crate::tokens::method_tok;
use crate::tokens::path_tok;
use crate::tokens::scan_tok;
use crate::tokens::scan_ws;
use crate::tokens::skip_ws;
use crate::tokens::trim;

verus! {

/// The parser's answer for one request line: how the produced request or
/// error relates to the line's tokens.
pub open spec fn parse_line_result(line: Seq<char>, r: Result<Request, HttpError>) -> bool {
    if method_tok(line).len() == 0 {
        r == Err::<Request, HttpError>(HttpError::MissingMethod)
    } else if method_tok(line) != "GET"@ {
        &&& r matches Err(e)
        &&& e matches HttpError::UnsupportedMethod(t)
        &&& t@ == method_tok(line)
    } else if path_tok(line).len() == 0 {
        r == Err::<Request, HttpError>(HttpError::MissingPath)
    } else {
        &&& r matches Ok(req)
        &&& req.method == Method::Get
        &&& req.path@ == path_tok(line)
        &&& req.headers@ == Map::<Seq<char>, Seq<char>>::empty()
        &&& req.wf()
    }
}

/// Parses one complete request line. The first whitespace-separated token is
/// the method, the second the path; anything after the path (such as a
/// protocol version) is ignored and its absence is not an error.
pub fn parse_request_line(line: &str) -> (r: Result<Request, HttpError>)
    ensures
        parse_line_result(line@, r),
{
    let ghost s = line@;
    let len = line.unicode_len();
    let a1 = scan_ws(line, len, 0);
    let b1 = scan_tok(line, len, a1);
    proof {
        lemma_skip_ws(s, a1 as int);
        lemma_take_drop_tok(s.skip(a1 as int), (b1 - a1) as int);
        assert(s.skip(a1 as int).take((b1 - a1) as int) =~= s.subrange(a1 as int, b1 as int));
        assert(method_tok(s) == s.subrange(a1 as int, b1 as int));
        assert(s.skip(a1 as int).skip((b1 - a1) as int) =~= s.skip(b1 as int));
        assert(drop_tok(skip_ws(s)) == s.skip(b1 as int));
    }
    if a1 == b1 {
        return Err(HttpError::MissingMethod);
    }
    let mtok = line.substring_char(a1, b1);
    let method = match Method::try_from(mtok) {
        Ok(m) => m,
        Err(e) => {
            return Err(e);
        },
    };
    let a2 = scan_ws(line, len, b1);
    let b2 = scan_tok(line, len, a2);
    proof {
        lemma_skip_ws(s.skip(b1 as int), (a2 - b1) as int);
        assert(s.skip(b1 as int).skip((a2 - b1) as int) =~= s.skip(a2 as int));
        lemma_take_drop_tok(s.skip(a2 as int), (b2 - a2) as int);
        assert(s.skip(a2 as int).take((b2 - a2) as int) =~= s.subrange(a2 as int, b2 as int));
        assert(path_tok(s) == s.subrange(a2 as int, b2 as int));
    }
    if a2 == b2 {
        return Err(HttpError::MissingPath);
    }
    let path = line.substring_char(a2, b2).to_owned();
    Ok(Request::new(method, path))
}

/// Relies on core::str::from_utf8: it views the given bytes as text exactly
/// when they are valid UTF-8, and fails otherwise.
#[verifier::external_body]
fn decode_text(bytes: &[u8]) -> (r: Option<String>)
    ensures
        r is Some <==> valid_utf8(bytes@),
        (r matches Some(s) ==> s@ == decode_utf8(bytes@)),
{
    match core::str::from_utf8(bytes) {
        Ok(s) => Some(s.to_string()),
        Err(_) => None,
    }
}

/// The parser's answer for the raw bytes of one read: locate the first line
/// terminator, decode the line as text, then parse it as a request line.
pub open spec fn parse_bytes_result(data: Seq<u8>, r: Result<Request, HttpError>) -> bool {
    match first_crlf(data) {
        None => r == Err::<Request, HttpError>(HttpError::RequestTooLarge),
        Some(k) => {
            let line = data.subrange(0, k);
            if !valid_utf8(line) {
                r == Err::<Request, HttpError>(HttpError::InvalidUtf8)
            } else {
                parse_line_result(decode_utf8(line), r)
            }
        },
    }
}

/// Frames and parses the bytes of one read. A buffer with no terminator
/// anywhere, its final two bytes included, means the request line did not fit
/// and is rejected rather than truncated.
pub fn parse_request_bytes(data: &[u8]) -> (r: Result<Request, HttpError>)
    ensures
        parse_bytes_result(data@, r),
{
    match next_line_break(data) {
        None => {
            proof {
                lemma_first_crlf_none(data@);
            }
            Err(HttpError::RequestTooLarge)
        },
        Some(idx) => {
            proof {
                lemma_first_crlf_at(data@, idx as int);
            }
            let line = slice_subrange(data, 0, idx);
            match decode_text(line) {
                None => Err(HttpError::InvalidUtf8),
                Some(text) => parse_request_line(text.as_str()),
            }
        },
    }
}

/// Some character of `line` is a colon.
pub open spec fn has_colon(line: Seq<char>) -> bool {
    exists|i: int| 0 <= i < line.len() && line[i] == ':'
}

/// The position of the first colon of `line` (meaningful when one occurs and
/// a first one has been exhibited).
pub open spec fn colon_pos(line: Seq<char>) -> int {
    choose|i: int|
        0 <= i < line.len() && line[i] == ':' && (forall|j: int| 0 <= j < i ==> line[j] != ':')
}

/// A first colon position is pinned down by `colon_pos`.
pub proof fn lemma_colon_pos(s: Seq<char>, i: int)
    requires
        0 <= i < s.len(),
        s[i] == ':',
        forall|j: int| 0 <= j < i ==> s[j] != ':',
    ensures
        has_colon(s),
        colon_pos(s) == i,
{
    assert(has_colon(s));
    let k = colon_pos(s);
    assert(0 <= k < s.len() && s[k] == ':' && (forall|j: int| 0 <= j < k ==> s[j] != ':'));
    if k < i {
        assert(s[k] != ':');
    }
    if i < k {
        assert(s[i] != ':');
    }
}

/// Returns the position of the first colon of `line`, if any.
fn find_colon(line: &str, len: usize) -> (r: Option<usize>)
    requires
        len == line@.len(),
    ensures
        match r {
            Some(i) => i < len && line@[i as int] == ':' && (forall|j: int|
                0 <= j < i ==> line@[j] != ':'),
            None => forall|j: int| 0 <= j < line@.len() ==> line@[j] != ':',
        },
{
    let mut i: usize = 0;
    loop
        invariant
            len == line@.len(),
            i <= len,
            forall|j: int| 0 <= j < i ==> line@[j] != ':',
        decreases len - i,
    {
        if i == len {
            return None;
        }
        if line.get_char(i) == ':' {
            return Some(i);
        }
        i = i + 1;
    }
}

/// Returns the position where the trailing whitespace run of `line` begins,
/// scanning no further left than `lo`.
fn scan_trailing(line: &str, len: usize, lo: usize) -> (r: usize)
    requires
        len == line@.len(),
        lo <= len,
    ensures
        lo <= r <= len,
        forall|j: int| r <= j < len ==> is_ws(line@[j]),
        r == lo || !is_ws(line@[r - 1]),
{
    let mut e: usize = len;
    loop
        invariant
            len == line@.len(),
            lo <= e <= len,
            forall|j: int| e <= j < len ==> is_ws(line@[j]),
        decreases e,
    {
        if e == lo {
            return e;
        }
        let c = line.get_char(e - 1);
        if !(c == ' ' || c == '\t' || c == '\n' || c == '\x0c' || c == '\r') {
            return e;
        }
        e = e - 1;
    }
}

/// The parser's answer for one header line: the name is everything before
/// the first colon, the value everything after it with surrounding
/// whitespace removed; a line with no colon is malformed.
pub open spec fn header_line_result(
    line: Seq<char>,
    r: Result<(String, String), HttpError>,
) -> bool {
    if !has_colon(line) {
        r == Err::<(String, String), HttpError>(HttpError::MalformedHeader)
    } else {
        &&& r matches Ok(h)
        &&& h.0@ == line.take(colon_pos(line))
        &&& h.1@ == trim(line.skip(colon_pos(line) + 1))
    }
}

/// The parser's answer for the header section at the start of `data`, given
/// the headers `acc` already collected: header lines are consumed one at a
/// time until the blank line that ends the section, the last value for a
/// name winning. Exhausting the bytes before the blank line arrives rejects
/// the request as too large rather than truncating the section silently.
pub open spec fn header_section_result(
    data: Seq<u8>,
    acc: Map<Seq<char>, Seq<char>>,
    r: Result<Map<Seq<char>, Seq<char>>, HttpError>,
) -> bool
    decreases data.len(),
    via header_section_dec
{
    match first_crlf(data) {
        None => r == Err::<Map<Seq<char>, Seq<char>>, HttpError>(HttpError::RequestTooLarge),
        Some(k) => {
            if k == 0 {
                r == Ok::<Map<Seq<char>, Seq<char>>, HttpError>(acc)
            } else {
                let line = data.subrange(0, k);
                if !valid_utf8(line) {
                    r == Err::<Map<Seq<char>, Seq<char>>, HttpError>(HttpError::InvalidUtf8)
                } else {
                    let chars = decode_utf8(line);
                    if !has_colon(chars) {
                        r == Err::<Map<Seq<char>, Seq<char>>, HttpError>(HttpError::MalformedHeader)
                    } else {
                        header_section_result(
                            data.skip(k + 2),
                            acc.insert(
                                chars.take(colon_pos(chars)),
                                trim(chars.skip(colon_pos(chars) + 1)),
                            ),
                            r,
                        )
                    }
                }
            }
        },
    }
}

#[via_fn]
proof fn header_section_dec(
    data: Seq<u8>,
    acc: Map<Seq<char>, Seq<char>>,
    r: Result<Map<Seq<char>, Seq<char>>, HttpError>,
) {
    crate::frame::lemma_first_crlf(data);
}

/// Parses the header section at the start of `data`: header lines, each
/// ending in the two-byte terminator, up to the blank line that ends the
/// section. Returns the collected headers, or the failure after which no
/// request is served.
pub fn parse_header_section(data: &[u8]) -> (r: Result<HeaderMap, HttpError>)
    ensures
        (r matches Ok(h) ==> h.wf() && header_section_result(
            data@,
            Map::<Seq<char>, Seq<char>>::empty(),
            Ok(h@),
        )),
        (r matches Err(e) ==> header_section_result(
            data@,
            Map::<Seq<char>, Seq<char>>::empty(),
            Err(e),
        )),
{
    let mut headers = HeaderMap::new();
    let n = data.len();
    let mut pos: usize = 0;
    proof {
        assert(data@.skip(0) =~= data@);
    }
    loop
        invariant
            n == data@.len(),
            pos <= n,
            headers.wf(),
            forall|res: Result<Map<Seq<char>, Seq<char>>, HttpError>|
                #[trigger] header_section_result(data@.skip(pos as int), headers@, res)
                    ==> header_section_result(data@, Map::<Seq<char>, Seq<char>>::empty(), res),
        decreases n - pos,
    {
        let ghost pos0 = pos as int;
        let ghost acc0 = headers@;
        let rest = slice_subrange(data, pos, n);
        let ghost rs = rest@;
        proof {
            assert(rs =~= data@.skip(pos0));
        }
        match next_line_break(rest) {
            None => {
                proof {
                    lemma_first_crlf_none(rs);
                    assert(header_section_result(rs, acc0, Err(HttpError::RequestTooLarge)));
                }
                return Err(HttpError::RequestTooLarge);
            },
            Some(k) => {
                proof {
                    lemma_first_crlf_at(rs, k as int);
                }
                if k == 0 {
                    proof {
                        assert(header_section_result(rs, acc0, Ok(acc0)));
                    }
                    return Ok(headers);
                }
                let line = slice_subrange(data, pos, pos + k);
                proof {
                    assert(line@ =~= rs.subrange(0, k as int));
                }
                match decode_text(line) {
                    None => {
                        proof {
                            assert(header_section_result(rs, acc0, Err(HttpError::InvalidUtf8)));
                        }
                        return Err(HttpError::InvalidUtf8);
                    },
                    Some(text) => {
                        match parse_header_line(text.as_str()) {
                            Err(e) => {
                                proof {
                                    assert(header_section_result(rs, acc0, Err(e)));
                                }
                                return Err(e);
                            },
                            Ok(header) => {
                                let (name, value) = header;
                                headers.insert(name, value);
                                pos = pos + k + 2;
                                proof {
                                    let pos1 = pos as int;
                                    assert(data@.skip(pos0).skip(k + 2) =~= data@.skip(pos1));
                                    assert forall|res: Result<Map<Seq<char>, Seq<char>>, HttpError>|
                                        #[trigger] header_section_result(
                                            data@.skip(pos1),
                                            headers@,
                                            res,
                                        ) implies header_section_result(
                                        data@,
                                        Map::<Seq<char>, Seq<char>>::empty(),
                                        res,
                                    ) by {
                                        assert(header_section_result(rs, acc0, res));
                                    }
                                }
                            },
                        }
                    },
                }
            },
        }
    }
}

/// The parser's answer for a full request at the start of `data`: the
/// request line, then the whole header section up to its blank line.
pub open spec fn request_with_headers_result(data: Seq<u8>, r: Result<Request, HttpError>) -> bool {
    match first_crlf(data) {
        None => r == Err::<Request, HttpError>(HttpError::RequestTooLarge),
        Some(k) => {
            let line = data.subrange(0, k);
            if !valid_utf8(line) {
                r == Err::<Request, HttpError>(HttpError::InvalidUtf8)
            } else {
                let chars = decode_utf8(line);
                if method_tok(chars).len() == 0 {
                    r == Err::<Request, HttpError>(HttpError::MissingMethod)
                } else if method_tok(chars) != "GET"@ {
                    &&& r matches Err(e)
                    &&& e matches HttpError::UnsupportedMethod(t)
                    &&& t@ == method_tok(chars)
                } else if path_tok(chars).len() == 0 {
                    r == Err::<Request, HttpError>(HttpError::MissingPath)
                } else {
                    match r {
                        Ok(req) => {
                            &&& req.method == Method::Get
                            &&& req.path@ == path_tok(chars)
                            &&& req.wf()
                            &&& header_section_result(
                                data.skip(k + 2),
                                Map::<Seq<char>, Seq<char>>::empty(),
                                Ok(req.headers@),
                            )
                        },
                        Err(e) => header_section_result(
                            data.skip(k + 2),
                            Map::<Seq<char>, Seq<char>>::empty(),
                            Err(e),
                        ),
                    }
                }
            }
        },
    }
}

/// Parses a full request: the request line, then the header section, which
/// must end with a blank line inside the buffer.
pub fn parse_request_with_headers(data: &[u8]) -> (r: Result<Request, HttpError>)
    ensures
        request_with_headers_result(data@, r),
{
    match next_line_break(data) {
        None => {
            proof {
                lemma_first_crlf_none(data@);
            }
            Err(HttpError::RequestTooLarge)
        },
        Some(idx) => {
            proof {
                lemma_first_crlf_at(data@, idx as int);
            }
            let line = slice_subrange(data, 0, idx);
            match decode_text(line) {
                None => Err(HttpError::InvalidUtf8),
                Some(text) => {
                    let req = match parse_request_line(text.as_str()) {
                        Ok(req) => req,
                        Err(e) => {
                            return Err(e);
                        },
                    };
                    let n = data.len();
                    proof {
                        assert(idx + 2 <= n);
                    }
                    let rest = slice_subrange(data, idx + 2, n);
                    proof {
                        assert(rest@ =~= data@.skip(idx + 2));
                    }
                    match parse_header_section(rest) {
                        Ok(headers) => Ok(
                            Request { method: req.method, path: req.path, headers },
                        ),
                        Err(e) => Err(e),
                    }
                },
            }
        },
    }
}

/// Parses one header line into a name and a trimmed value.
pub fn parse_header_line(line: &str) -> (r: Result<(String, String), HttpError>)
    ensures
        header_line_result(line@, r),
{
    let ghost s = line@;
    let len = line.unicode_len();
    match find_colon(line, len) {
        None => {
            proof {
                assert(!has_colon(s)) by {
                    if has_colon(s) {
                        let i = choose|i: int| 0 <= i < s.len() && s[i] == ':';
                        assert(s[i] != ':');
                    }
                }
            }
            Err(HttpError::MalformedHeader)
        },
        Some(c) => {
            proof {
                lemma_colon_pos(s, c as int);
            }
            let name = line.substring_char(0, c).to_owned();
            let a = scan_ws(line, len, c + 1);
            let e = scan_trailing(line, len, a);
            proof {
                assert(name@ =~= s.take(c as int));
                lemma_skip_ws(s.skip(c as int + 1), a - (c as int + 1));
                assert(s.skip(c as int + 1).skip(a - (c as int + 1)) =~= s.skip(a as int));
                lemma_trim_end(s.skip(a as int), e - a);
                assert(s.skip(a as int).take(e - a) =~= s.subrange(a as int, e as int));
                assert(trim(s.skip(c as int + 1)) == s.subrange(a as int, e as int));
            }
            let value = line.substring_char(a, e).to_owned();
            Ok((name, value))
        },
    }
}

/// The characters that a sequence of ASCII bytes stands for, one per byte.
pub open spec fn ascii_chars(b: Seq<u8>) -> Seq<char> {
    b.map(|i: int, x: u8| x as char)
}

/// ASCII bytes are valid UTF-8 and decode to themselves, character by byte.
pub proof fn lemma_ascii_bytes_decode(b: Seq<u8>)
    requires
        forall|i: int| 0 <= i < b.len() ==> b[i] < 128,
    ensures
        valid_utf8(b),
        decode_utf8(b) == ascii_chars(b),
{
    let chars = ascii_chars(b);
    assert(vstd::utf8::is_ascii_chars(chars)) by {
        assert forall|i: int| 0 <= i < chars.len() implies '\0' <= #[trigger] chars[i]
            <= '\u{7f}' by {
            assert(chars[i] == b[i] as char);
        }
    }
    vstd::utf8::is_ascii_chars_encode_utf8(chars);
    assert(vstd::utf8::encode_utf8(chars) =~= b);
    vstd::utf8::encode_utf8_valid_utf8(chars);
    vstd::utf8::encode_utf8_decode_utf8(chars);
}

/// Parsing the framed bytes `GET <path>\r\n\r\n`, for any non-empty path of
/// visible ASCII characters, yields a request for exactly that path with no
/// headers.
pub proof fn lemma_parse_simple_request_bytes(p: Seq<u8>, r: Result<Request, HttpError>)
    requires
        p.len() > 0,
        forall|i: int| 0 <= i < p.len() ==> 32 < #[trigger] p[i] < 127,
        parse_bytes_result(seq![71u8, 69u8, 84u8, 32u8] + p + seq![13u8, 10u8, 13u8, 10u8], r),
    ensures
        ({
            &&& r matches Ok(req)
            &&& req.method == Method::Get
            &&& req.path@ == ascii_chars(p)
            &&& req.headers@ == Map::<Seq<char>, Seq<char>>::empty()
        }),
{
    let data = seq![71u8, 69u8, 84u8, 32u8] + p + seq![13u8, 10u8, 13u8, 10u8];
    let line = seq![71u8, 69u8, 84u8, 32u8] + p;
    let k = line.len() as int;
    assert(crlf_at(data, k));
    assert forall|j: int| 0 <= j < k implies !crlf_at(data, j) by {
        if 4 <= j {
            assert(data[j] == p[j - 4]);
        }
    }
    lemma_first_crlf_at(data, k);
    assert(data.subrange(0, k) =~= line);
    assert(forall|i: int| 0 <= i < line.len() ==> line[i] < 128);
    lemma_ascii_bytes_decode(line);
    let chars = ascii_chars(line);
    let path_chars = ascii_chars(p);
    assert(chars =~= "GET "@ + path_chars) by {
        reveal_strlit("GET ");
    }
    assert(forall|i: int| 0 <= i < path_chars.len() ==> !is_ws(path_chars[i]));
    crate::tokens::lemma_simple_request_line(path_chars);
    assert(method_tok(chars) == "GET"@);
    assert(path_tok(chars) == path_chars);
    reveal_strlit("GET");
    assert(method_tok(chars).len() == 3);
}

} // verus!
