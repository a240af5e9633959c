//! The response value and its serialized status line.

use vstd::prelude::*;
use vstd::string::StringExecFns;

use crate::headers::HeaderMap;
use crate::status::Status;

verus! {

/// A response: a status and bounded headers. It is built by the handler and
/// consumed once when written out.
#[derive(Debug, Clone)]
pub struct Response {
    /// The outcome to report.
    pub status: Status,
    /// Headers to send beyond the status line (an extension point; the
    /// minimal wire format carries none).
    pub headers: HeaderMap,
}

impl Response {
    /// The header entries are well formed.
    pub open spec fn wf(self) -> bool {
        self.headers.wf()
    }

    /// A fresh response with no headers.
    pub fn new(status: Status) -> (r: Response)
        ensures
            r.status == status,
            r.headers@ == Map::<Seq<char>, Seq<char>>::empty(),
            r.wf(),
    {
        Response { status, headers: HeaderMap::new() }
    }

    /// Sets a header; the last value set under a name wins. Returns the value
    /// previously held under that name, if any.
    pub fn set_header(&mut self, name: String, value: String) -> (r: Option<String>)
        requires
            old(self).wf(),
        ensures
            final(self).wf(),
            final(self).status == old(self).status,
            final(self).headers@ == old(self).headers@.insert(name@, value@),
            r is Some <==> old(self).headers@.contains_key(name@),
            (r matches Some(v) ==> v@ == old(self).headers@[name@]),
    {
        self.headers.insert(name, value)
    }

    /// The exact text to write for this response: one status line of the form
    /// `HTTP/1.1 <status-text>`, then the terminator and the blank line that
    /// ends the (empty) header section.
    pub fn serialize(&self) -> (r: String)
        ensures
            r@ == self.status.line_spec(),
    {
        let mut out = String::from_str("HTTP/1.1 ");
        out.append(self.status.text());
        out.append("\r\n\r\n");
        out
    }
}

} // verus!
