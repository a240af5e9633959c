//! Per-connection decisions around the I/O that the caller performs.
//!
//! The caller owns the connection, the deadlines and the buffer; it reports
//! what each bounded I/O operation yielded and receives the decision — an
//! error that closes the connection, or the exact bytes to write back.

use vstd::prelude::*;

use crate::error::HttpError;
use crate::parse::parse_bytes_result;
use crate::parse::parse_request_bytes;
use crate::request::Request;
use crate::response::Response;
use crate::status::Status;

verus! {

/// What one attempted I/O operation yielded, as the caller observed it.
#[derive(Debug, Clone, PartialEq, Eq)]
pub enum IoEvent {
    /// The operation completed within its deadline, moving this many bytes.
    Completed(usize),
    /// The deadline expired before the operation completed.
    DeadlineExpired,
    /// The transport failed; the message describes the failure.
    Failed(String),
}

/// Classifies the outcome of the single bounded read. A read of zero bytes
/// means the peer closed the connection; it is reported as the distinct
/// closed condition, never as a generic I/O error.
pub fn classify_read(event: IoEvent) -> (r: Result<usize, HttpError>)
    ensures
        match event {
            IoEvent::Completed(n) => r == if n == 0 {
                Err::<usize, HttpError>(HttpError::ConnectionClosed)
            } else {
                Ok::<usize, HttpError>(n)
            },
            IoEvent::DeadlineExpired => r == Err::<usize, HttpError>(HttpError::ReadTimeout),
            IoEvent::Failed(m) => r == Err::<usize, HttpError>(HttpError::IoError(m)),
        },
{
    match event {
        IoEvent::Completed(n) => if n == 0 {
            Err(HttpError::ConnectionClosed)
        } else {
            Ok(n)
        },
        IoEvent::DeadlineExpired => Err(HttpError::ReadTimeout),
        IoEvent::Failed(m) => Err(HttpError::IoError(m)),
    }
}

/// Classifies the outcome of the bounded write of the response.
pub fn classify_write(event: IoEvent) -> (r: Result<usize, HttpError>)
    ensures
        match event {
            IoEvent::Completed(n) => r == Ok::<usize, HttpError>(n),
            IoEvent::DeadlineExpired => r == Err::<usize, HttpError>(HttpError::WriteTimeout),
            IoEvent::Failed(m) => r == Err::<usize, HttpError>(HttpError::IoError(m)),
        },
{
    match event {
        IoEvent::Completed(n) => Ok(n),
        IoEvent::DeadlineExpired => Err(HttpError::WriteTimeout),
        IoEvent::Failed(m) => Err(HttpError::IoError(m)),
    }
}

/// Decides the response for a parsed request: every request that reached this
/// point is answered with plain success and no extra headers.
#[allow(unused_variables)]
pub fn handle_request(request: &Request) -> (r: Response)
    ensures
        r.status == Status::Okay,
        r.headers@ == Map::<Seq<char>, Seq<char>>::empty(),
        r.wf(),
{
    Response::new(Status::Okay)
}

/// Runs the computational part of one connection on the bytes of one read:
/// frame, parse, decide, serialize. Returns the exact text to write back, or
/// the failure after which the connection is closed with no response.
pub fn process_buffer(data: &[u8]) -> (r: Result<String, HttpError>)
    ensures
        (r matches Ok(out) ==> {
            &&& exists|req: Request| parse_bytes_result(data@, Ok(req))
            &&& out@ == Status::Okay.line_spec()
        }),
        (r matches Err(e) ==> parse_bytes_result(data@, Err(e))),
{
    match parse_request_bytes(data) {
        Ok(request) => {
            proof {
                assert(parse_bytes_result(data@, Ok(request)));
            }
            let response = handle_request(&request);
            Ok(response.serialize())
        },
        Err(e) => Err(e),
    }
}

} // verus!
