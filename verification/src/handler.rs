//! The request-level state machine: dispatching one resolved request to
//! the response that answers it.
//!
//! After parsing and resolution, the surrounding program fetches what the
//! resource needs — the directory's entry names, or the file's bytes and
//! content type — and hands the resolved kind and the fetched data to
//! `handle_request`, which returns the one response written for the
//! request: a listing for a directory, the file's bytes for a file, and
//! the fitting error page otherwise.

use vstd::prelude::*;
use vstd::string::StringSliceAdditionalSpecFns;

use crate::request::Request;
use crate::resolve::PathKind;
use crate::resolve::resolved_kind;
use crate::resolve::spec_resolve;
use crate::resolve::within_root;
use crate::response::browse_response;
use crate::response::error_response;
use crate::response::error_response_bytes;
use crate::response::file_response;
use crate::response::file_response_bytes;
use crate::response::listing_response_bytes;
use crate::response::response_head;
use crate::status::HttpStatus;

verus! {

/// What the surrounding program fetched for the resolved resource: the
/// entry names of a directory, the content type and bytes of a file, or
/// nothing because the fetch failed.
pub enum ResourceData {
    /// The directory's entry names, in enumeration order.
    DirEntries(Vec<Vec<u8>>),
    /// The file's content type and its full bytes, read before any byte
    /// of the response is written, so a failed read never follows an OK
    /// status line.
    FileContents(Vec<u8>, Vec<u8>),
    /// The fetch failed; the request is answered with an error page.
    Unavailable,
}

/// The one response written for a request, given the kind that resolution
/// accepted (or its rejection) and the fetched resource data.
pub open spec fn spec_handle(uri: Seq<u8>, resolution: Option<PathKind>, data: &ResourceData) -> (
    Seq<u8>,
    HttpStatus,
) {
    match resolution {
        None => (error_response_bytes(HttpStatus::NOT_FOUND), HttpStatus::NOT_FOUND),
        Some(PathKind::Directory) => match data {
            ResourceData::DirEntries(es) => (
                listing_response_bytes(uri, es.deep_view()),
                HttpStatus::OK,
            ),
            _ => (
                error_response_bytes(HttpStatus::INTERNAL_SERVER_ERROR),
                HttpStatus::INTERNAL_SERVER_ERROR,
            ),
        },
        Some(PathKind::File) => match data {
            ResourceData::FileContents(ct, body) => (
                file_response_bytes(ct@, body@),
                HttpStatus::OK,
            ),
            _ => (
                error_response_bytes(HttpStatus::INTERNAL_SERVER_ERROR),
                HttpStatus::INTERNAL_SERVER_ERROR,
            ),
        },
        Some(PathKind::Other) => (
            error_response_bytes(HttpStatus::BAD_REQUEST),
            HttpStatus::BAD_REQUEST,
        ),
    }
}

impl Request {
    /// Produces the single response for this request: a directory is
    /// answered with its listing, a file with its bytes, a rejected path
    /// with NOT_FOUND, a resource of any other kind with BAD_REQUEST, and
    /// a failed fetch with INTERNAL_SERVER_ERROR.
    pub fn handle_request(&self, resolution: Option<PathKind>, data: &ResourceData) -> (out: (
        Vec<u8>,
        HttpStatus,
    ))
        ensures
            (out.0@, out.1) == spec_handle(self.uri@, resolution, data),
    {
        match resolution {
            None => (error_response(HttpStatus::NOT_FOUND), HttpStatus::NOT_FOUND),
            Some(PathKind::Directory) => match data {
                ResourceData::DirEntries(es) => (browse_response(&self.uri, es), HttpStatus::OK),
                _ => (
                    error_response(HttpStatus::INTERNAL_SERVER_ERROR),
                    HttpStatus::INTERNAL_SERVER_ERROR,
                ),
            },
            Some(PathKind::File) => match data {
                ResourceData::FileContents(ct, body) => (file_response(ct, body), HttpStatus::OK),
                _ => (
                    error_response(HttpStatus::INTERNAL_SERVER_ERROR),
                    HttpStatus::INTERNAL_SERVER_ERROR,
                ),
            },
            Some(PathKind::Other) => (
                error_response(HttpStatus::BAD_REQUEST),
                HttpStatus::BAD_REQUEST,
            ),
        }
    }
}

/// Law: the response status matches the resource classification. A
/// contained directory is answered 200 with `text/html`; a contained file
/// 200 with its content type; a failed canonicalization or an escaping
/// path 404.
pub proof fn lemma_status_matches_classification(
    uri: Seq<u8>,
    root: Seq<u8>,
    canonical: Option<(Seq<u8>, PathKind)>,
    data: &ResourceData,
)
    ensures
        ({
            let out = spec_handle(uri, resolved_kind(root, canonical), data);
            match canonical {
                None => out.1 == HttpStatus::NOT_FOUND && out.0 == error_response_bytes(
                    HttpStatus::NOT_FOUND,
                ),
                Some(pk) => if !within_root(root, pk.0) {
                    out.1 == HttpStatus::NOT_FOUND && out.0 == error_response_bytes(
                        HttpStatus::NOT_FOUND,
                    )
                } else {
                    match (pk.1, data) {
                        (PathKind::Directory, ResourceData::DirEntries(es)) => out.1
                            == HttpStatus::OK && out.0 == listing_response_bytes(
                            uri,
                            es.deep_view(),
                        ) && response_head(
                            HttpStatus::OK,
                            "text/html".spec_bytes(),
                        ).is_prefix_of(out.0),
                        (PathKind::File, ResourceData::FileContents(ct, body)) => out.1
                            == HttpStatus::OK && out.0 == file_response_bytes(ct@, body@)
                            && response_head(HttpStatus::OK, ct@).is_prefix_of(out.0),
                        (PathKind::Other, _) => out.1 == HttpStatus::BAD_REQUEST && out.0
                            == error_response_bytes(HttpStatus::BAD_REQUEST),
                        _ => true,
                    }
                },
            }
        }),
{
    let out = spec_handle(uri, resolved_kind(root, canonical), data);
    match canonical {
        None => {},
        Some(pk) => {
            if within_root(root, pk.0) {
                match (pk.1, data) {
                    (PathKind::Directory, ResourceData::DirEntries(es)) => {
                        let head = response_head(HttpStatus::OK, "text/html".spec_bytes());
                        assert(out.0.subrange(0, head.len() as int) =~= head);
                    },
                    (PathKind::File, ResourceData::FileContents(ct, body)) => {
                        let head = response_head(HttpStatus::OK, ct@);
                        assert(out.0.subrange(0, head.len() as int) =~= head);
                    },
                    _ => {},
                }
            }
        },
    }
}

/// Law: a request whose URI canonicalizes to a path outside the root is
/// answered with the NOT_FOUND error page — never with the escaped
/// resource's bytes — whatever was fetched for it.
pub proof fn lemma_traversal_confined(
    uri: Seq<u8>,
    root: Seq<u8>,
    path: Seq<u8>,
    kind: PathKind,
    data: &ResourceData,
)
    requires
        !within_root(root, path),
    ensures
        spec_handle(uri, resolved_kind(root, Some((path, kind))), data) == (
            error_response_bytes(HttpStatus::NOT_FOUND),
            HttpStatus::NOT_FOUND,
        ),
{
}

} // verus!
