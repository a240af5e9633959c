//! A minimal HTTP/1.1 request-framing core.
//!
//! The library locates a complete request line inside a bounded buffer,
//! parses it into a structured request, and serializes a single status-line
//! response. All I/O (reading from and writing to a connection, deadlines)
//! is left to the caller; the library works on plain bytes and text and is
//! verified end to end.

pub mod conn;
pub mod error;
pub mod frame;
pub mod headers;
pub mod method;
pub mod parse;
pub mod request;
pub mod response;
pub mod status;
pub mod tokens;

pub use conn::process_buffer;
pub use conn::IoEvent;
pub use error::HttpError;
pub use frame::next_line_break;
pub use method::Method;
pub use request::Request;
pub use response::Response;
pub use status::Status;
