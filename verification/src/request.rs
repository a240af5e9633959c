//! The structured request produced by the parser.

use vstd::prelude::*;

use crate::headers::HeaderMap;
use crate::method::Method;

verus! {

/// A parsed request: method, path, and best-effort headers. Built once per
/// connection and owned solely by its handler.
#[derive(Debug, Clone)]
pub struct Request {
    /// The validated method.
    pub method: Method,
    /// The request path, exactly as received.
    pub path: String,
    /// The headers seen before the header section ended.
    pub headers: HeaderMap,
}

impl Request {
    /// The header entries are well formed.
    pub open spec fn wf(self) -> bool {
        self.headers.wf()
    }

    /// A fresh request with no headers.
    pub fn new(method: Method, path: String) -> (r: Request)
        ensures
            r.method == method,
            r.path == path,
            r.headers@ == Map::<Seq<char>, Seq<char>>::empty(),
            r.wf(),
    {
        Request { method, path, headers: HeaderMap::new() }
    }

    /// Sets a header; the last value set under a name wins. Returns the value
    /// previously held under that name, if any.
    pub fn set_header(&mut self, name: String, value: String) -> (r: Option<String>)
        requires
            old(self).wf(),
        ensures
            final(self).wf(),
            final(self).method == old(self).method,
            final(self).path == old(self).path,
            final(self).headers@ == old(self).headers@.insert(name@, value@),
            r is Some <==> old(self).headers@.contains_key(name@),
            (r matches Some(v) ==> v@ == old(self).headers@[name@]),
    {
        self.headers.insert(name, value)
    }
}

} // verus!
