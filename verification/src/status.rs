//! The closed set of response outcomes and their wire texts.

use vstd::prelude::*;

verus! {

/// An outcome the response emitter can report. Each status serializes to its
/// own wire text; no two statuses share a status line.
#[derive(Debug, Copy, Clone, PartialEq, Eq, Structural)]
pub enum Status {
    Okay,
    NotFound,
}

impl Status {
    /// The reason text of this status as it appears on the wire.
    pub open spec fn text_spec(self) -> Seq<char> {
        match self {
            Status::Okay => "200 OK"@,
            Status::NotFound => "404 Not Found"@,
        }
    }

    /// The complete status line written for this status, terminator included.
    pub open spec fn line_spec(self) -> Seq<char> {
        "HTTP/1.1 "@ + self.text_spec() + "\r\n\r\n"@
    }

    /// The reason text of this status.
    pub fn text(&self) -> (r: &'static str)
        ensures
            r@ == self.text_spec(),
    {
        match self {
            Status::Okay => "200 OK",
            Status::NotFound => "404 Not Found",
        }
    }
}

/// Distinct statuses have distinct reason texts and distinct status lines.
pub proof fn lemma_status_lines_distinct(a: Status, b: Status)
    requires
        a != b,
    ensures
        a.text_spec() != b.text_spec(),
        a.line_spec() != b.line_spec(),
{
    reveal_strlit("200 OK");
    reveal_strlit("404 Not Found");
    assert(a.text_spec().len() != b.text_spec().len());
    assert(a.line_spec().len() != b.line_spec().len());
}

} // verus!
