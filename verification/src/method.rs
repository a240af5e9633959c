//! The closed set of supported request methods.

use vstd::prelude::*;

use crate::error::HttpError;

verus! {

/// A supported request method. Only retrieval is recognized; any other token
/// is a parse error, never a silently accepted default — the fallible
/// conversion below is the only way to obtain a `Method` from text.
#[derive(Debug, Copy, Clone, PartialEq, Eq, Structural)]
pub enum Method {
    Get,
}

impl Method {
    /// Validates a method token. Exactly the token `GET` is accepted; every
    /// other token is rejected as unsupported, carrying the token itself.
    pub fn try_from(value: &str) -> (r: Result<Method, HttpError>)
        ensures
            value@ == "GET"@ ==> r == Ok::<Method, HttpError>(Method::Get),
            value@ != "GET"@ ==> (r matches Err(e) && e matches HttpError::UnsupportedMethod(t)
                && t@ == value@),
    {
        let len = value.unicode_len();
        if len == 3 && value.get_char(0) == 'G' && value.get_char(1) == 'E' && value.get_char(2)
            == 'T' {
            proof {
                reveal_strlit("GET");
                assert(value@ =~= "GET"@);
            }
            Ok(Method::Get)
        } else {
            proof {
                reveal_strlit("GET");
            }
            Err(HttpError::UnsupportedMethod(value.to_owned()))
        }
    }
}

} // verus!
