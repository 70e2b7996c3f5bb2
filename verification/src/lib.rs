//! A minimal HTTP/1.0 static-content server core.
//!
//! The library holds the request-handling pipeline: parsing raw request
//! bytes into a structured request, confining the resolved filesystem path
//! to the served root, and producing byte-exact HTTP responses (directory
//! listing, file transfer, error page). Socket accept/read/write, path
//! canonicalization and directory enumeration are performed by the
//! surrounding program, which hands their outcomes to this library as
//! plain values.

pub mod bytes;
pub mod handler;
pub mod request;
pub mod resolve;
pub mod response;
pub mod status;

pub use status::HttpStatus;
pub use status::http_status_string;
