//! The closed enumeration of HTTP statuses the server emits, with their
//! fixed reason phrases.

use vstd::prelude::*;
use vstd::string::StringSliceAdditionalSpecFns;

verus! {

/// The statuses a response can carry: success, malformed request,
/// unresolvable path, and failed file read.
#[allow(non_camel_case_types)]
#[derive(Copy, Clone, PartialEq, Eq, Structural, Debug)]
pub enum HttpStatus {
    OK,
    BAD_REQUEST,
    NOT_FOUND,
    INTERNAL_SERVER_ERROR,
}

/// The fixed reason phrase of a status, as characters.
pub open spec fn reason_phrase(status: HttpStatus) -> Seq<char> {
    match status {
        HttpStatus::OK => "200 OK"@,
        HttpStatus::BAD_REQUEST => "400 Bad Request"@,
        HttpStatus::NOT_FOUND => "404 Not Found"@,
        HttpStatus::INTERNAL_SERVER_ERROR => "500 Internal Server Error"@,
    }
}

/// The fixed reason phrase of a status, as the bytes written on the wire.
pub open spec fn reason_bytes(status: HttpStatus) -> Seq<u8> {
    match status {
        HttpStatus::OK => "200 OK".spec_bytes(),
        HttpStatus::BAD_REQUEST => "400 Bad Request".spec_bytes(),
        HttpStatus::NOT_FOUND => "404 Not Found".spec_bytes(),
        HttpStatus::INTERNAL_SERVER_ERROR => "500 Internal Server Error".spec_bytes(),
    }
}

/// Maps each status to its reason phrase, e.g. `"200 OK"`.
pub fn http_status_string(status: HttpStatus) -> (r: String)
    ensures
        r@ == reason_phrase(status),
{
    match status {
        HttpStatus::OK => "200 OK".to_owned(),
        HttpStatus::BAD_REQUEST => "400 Bad Request".to_owned(),
        HttpStatus::NOT_FOUND => "404 Not Found".to_owned(),
        HttpStatus::INTERNAL_SERVER_ERROR => "500 Internal Server Error".to_owned(),
    }
}

} // verus!
