//! Byte-exact construction of the three response kinds: directory listing,
//! file transfer, and error page.
//!
//! Every response is the fixed head (status line, `Content-Type` header,
//! blank line) followed by the body; the whole response is returned as one
//! byte vector and the caller writes it to the connection. Entry names and
//! the request URI are HTML-escaped before they are placed in the listing.

use vstd::prelude::*;
use vstd::string::StringSliceAdditionalSpecFns;

use crate::bytes::SLASH;
use crate::bytes::contains_seq;
use crate::bytes::lemma_contains_extend_left;
use crate::bytes::lemma_contains_extend_right;
use crate::bytes::lemma_contains_self;
use crate::bytes::push_str_bytes;
use crate::bytes::push_vec_bytes;
use crate::status::HttpStatus;
use crate::status::reason_bytes;

verus! {

/// `&`, `<`, `>` and `"`: the bytes replaced by HTML character references.
pub const AMPERSAND: u8 = 38;

pub const LESS_THAN: u8 = 60;

pub const GREATER_THAN: u8 = 62;

pub const DOUBLE_QUOTE: u8 = 34;

/// How one byte appears after HTML escaping.
pub open spec fn escape_byte(b: u8) -> Seq<u8> {
    if b == AMPERSAND {
        "&amp;".spec_bytes()
    } else if b == LESS_THAN {
        "&lt;".spec_bytes()
    } else if b == GREATER_THAN {
        "&gt;".spec_bytes()
    } else if b == DOUBLE_QUOTE {
        "&quot;".spec_bytes()
    } else {
        seq![b]
    }
}

/// HTML escaping of a byte sequence, byte for byte.
pub open spec fn escape_bytes(s: Seq<u8>) -> Seq<u8>
    decreases s.len(),
{
    if s.len() == 0 {
        Seq::empty()
    } else {
        escape_bytes(s.drop_last()) + escape_byte(s.last())
    }
}

/// A sequence free of the four escaped bytes is unchanged by escaping.
pub proof fn lemma_escape_identity(s: Seq<u8>)
    requires
        forall|i: int|
            0 <= i < s.len() ==> s[i] != AMPERSAND && s[i] != LESS_THAN && s[i] != GREATER_THAN
                && s[i] != DOUBLE_QUOTE,
    ensures
        escape_bytes(s) == s,
    decreases s.len(),
{
    if s.len() == 0 {
        assert(escape_bytes(s) =~= s);
    } else {
        lemma_escape_identity(s.drop_last());
        assert(escape_bytes(s) =~= s.drop_last() + seq![s.last()]);
        assert(s.drop_last() + seq![s.last()] =~= s);
    }
}

/// The head of every response: status line, `Content-Type` header, and the
/// blank line that ends the headers.
pub open spec fn response_head(status: HttpStatus, ctype: Seq<u8>) -> Seq<u8> {
    "HTTP/1.0 ".spec_bytes() + reason_bytes(status) + "\r\nContent-Type: ".spec_bytes() + ctype
        + "\r\n\r\n".spec_bytes()
}

/// A complete file-transfer response: OK head, then the file's bytes.
pub open spec fn file_response_bytes(ctype: Seq<u8>, contents: Seq<u8>) -> Seq<u8> {
    response_head(HttpStatus::OK, ctype) + contents
}

/// The fixed HTML chrome shared by the listing and error pages.
pub open spec fn page_shell() -> Seq<u8> {
    "<head>\n<link href=\"css/bootstrap.min.css\" rel=\"stylesheet\"><link href=\"css/custom.css\" rel=\"stylesheet\"></head>\n<body>\n<div class=\"jumbotron\">\n<div class=\"container\">\n<h1 style=\"text-align: center; color: white\">Gourd Experts</h1><h4 style=\"text-align: center; color: white\">Burger, Gallahue, Inglis</h4></div>\n</div>\n".spec_bytes()
}

/// The separator between the request URI and an entry name in a link's
/// href: nothing when the URI is the root `/`, a slash otherwise.
pub open spec fn href_sep(uri: Seq<u8>) -> Seq<u8> {
    if uri == seq![SLASH] {
        Seq::<u8>::empty()
    } else {
        seq![SLASH]
    }
}

/// The href of one listing link: the escaped request URI, the separator,
/// and the escaped entry name.
pub open spec fn href_of(uri: Seq<u8>, name: Seq<u8>) -> Seq<u8> {
    escape_bytes(uri) + href_sep(uri) + escape_bytes(name)
}

/// One listing link: an anchor whose href names the entry under the
/// request URI and whose label is the escaped entry name.
pub open spec fn link_for(uri: Seq<u8>, name: Seq<u8>) -> Seq<u8> {
    "<a href=\"".spec_bytes() + href_of(uri, name)
        + "\" class=\"list-group-item list-group-item-action\">".spec_bytes() + escape_bytes(name)
        + "</a>".spec_bytes()
}

/// The links of a listing, one per directory entry, in enumeration order.
pub open spec fn listing_links(uri: Seq<u8>, entries: Seq<Seq<u8>>) -> Seq<u8>
    decreases entries.len(),
{
    if entries.len() == 0 {
        Seq::empty()
    } else {
        listing_links(uri, entries.drop_last()) + link_for(uri, entries.last())
    }
}

/// The listing page body: shell, list group, one link per entry, closing tags.
pub open spec fn listing_body(uri: Seq<u8>, entries: Seq<Seq<u8>>) -> Seq<u8> {
    page_shell() + "<div class=\"list-group container\">\n".spec_bytes() + listing_links(
        uri,
        entries,
    ) + "</div>\n</body>\n".spec_bytes()
}

/// A complete directory-listing response.
pub open spec fn listing_response_bytes(uri: Seq<u8>, entries: Seq<Seq<u8>>) -> Seq<u8> {
    response_head(HttpStatus::OK, "text/html".spec_bytes()) + listing_body(uri, entries)
}

/// The explanatory paragraph of each error page.
pub open spec fn error_paragraph(status: HttpStatus) -> Seq<u8> {
    match status {
        HttpStatus::OK => Seq::<u8>::empty(),
        HttpStatus::BAD_REQUEST => "<p>Bad gourd request.</p>".spec_bytes(),
        HttpStatus::NOT_FOUND => "<p>The gourd you seek could not be foud. Do not give up hope, there are plenty of gourds in the sea.</p>".spec_bytes(),
        HttpStatus::INTERNAL_SERVER_ERROR => "<p>Something went wrong. Contact gourdhelp@nd.edu for assistance.</p>".spec_bytes(),
    }
}

/// The error page body: shell, a heading with the reason phrase, and the
/// status-specific paragraph.
pub open spec fn error_body(status: HttpStatus) -> Seq<u8> {
    page_shell() + "<h1>".spec_bytes() + reason_bytes(status) + "</h1>".spec_bytes()
        + error_paragraph(status) + "</body>".spec_bytes()
}

/// A complete error response.
pub open spec fn error_response_bytes(status: HttpStatus) -> Seq<u8> {
    response_head(status, "text/html".spec_bytes()) + error_body(status)
}

/// Law: a file-transfer response carries exactly the file's bytes after
/// the head — the transferred body equals the file's contents, with no
/// truncation and no padding.
pub proof fn lemma_file_transfer_exact(ctype: Seq<u8>, contents: Seq<u8>)
    ensures
        file_response_bytes(ctype, contents).len() == response_head(HttpStatus::OK, ctype).len()
            + contents.len(),
        file_response_bytes(ctype, contents).skip(
            response_head(HttpStatus::OK, ctype).len() as int,
        ) == contents,
{
    assert(file_response_bytes(ctype, contents).skip(
        response_head(HttpStatus::OK, ctype).len() as int,
    ) =~= contents);
}

/// The links of a listing contain the link of each entry.
proof fn lemma_links_contain_entry(uri: Seq<u8>, entries: Seq<Seq<u8>>, i: int)
    requires
        0 <= i < entries.len(),
    ensures
        contains_seq(listing_links(uri, entries), link_for(uri, entries[i])),
    decreases entries.len(),
{
    let link = link_for(uri, entries[i]);
    if i == entries.len() - 1 {
        lemma_contains_self(link);
        lemma_contains_extend_left(listing_links(uri, entries.drop_last()), link, link);
    } else {
        lemma_links_contain_entry(uri, entries.drop_last(), i);
        lemma_contains_extend_right(
            listing_links(uri, entries.drop_last()),
            link_for(uri, entries.last()),
            link,
        );
    }
}

/// Law: a directory listing holds one link per entry — the link of every
/// entry occurs in the response — and each link's href starts with the
/// (escaped) request URI.
pub proof fn lemma_listing_link_per_entry(uri: Seq<u8>, entries: Seq<Seq<u8>>, i: int)
    requires
        0 <= i < entries.len(),
    ensures
        contains_seq(listing_response_bytes(uri, entries), link_for(uri, entries[i])),
        ("<a href=\"".spec_bytes() + escape_bytes(uri)).is_prefix_of(link_for(uri, entries[i])),
{
    let link = link_for(uri, entries[i]);
    let links = listing_links(uri, entries);
    let head = response_head(HttpStatus::OK, "text/html".spec_bytes());
    let open_div = "<div class=\"list-group container\">\n".spec_bytes();
    let close = "</div>\n</body>\n".spec_bytes();
    lemma_links_contain_entry(uri, entries, i);
    lemma_contains_extend_left(page_shell() + open_div, links, link);
    lemma_contains_extend_right(page_shell() + open_div + links, close, link);
    lemma_contains_extend_left(head, listing_body(uri, entries), link);
    let pre = "<a href=\"".spec_bytes() + escape_bytes(uri);
    assert(link.subrange(0, pre.len() as int) =~= pre);
}

/// Appends the reason phrase of `status` to `out`.
fn push_reason(out: &mut Vec<u8>, status: HttpStatus)
    ensures
        final(out)@ == old(out)@ + reason_bytes(status),
{
    match status {
        HttpStatus::OK => push_str_bytes(out, "200 OK"),
        HttpStatus::BAD_REQUEST => push_str_bytes(out, "400 Bad Request"),
        HttpStatus::NOT_FOUND => push_str_bytes(out, "404 Not Found"),
        HttpStatus::INTERNAL_SERVER_ERROR => push_str_bytes(out, "500 Internal Server Error"),
    }
}

/// Appends the response head with a content type given as bytes.
fn push_head(out: &mut Vec<u8>, status: HttpStatus, ctype: &Vec<u8>)
    ensures
        final(out)@ == old(out)@ + response_head(status, ctype@),
{
    push_str_bytes(out, "HTTP/1.0 ");
    push_reason(out, status);
    push_str_bytes(out, "\r\nContent-Type: ");
    push_vec_bytes(out, ctype);
    push_str_bytes(out, "\r\n\r\n");
    proof {
        assert(final(out)@ =~= old(out)@ + response_head(status, ctype@));
    }
}

/// Appends the response head with `text/html` as the content type.
fn push_html_head(out: &mut Vec<u8>, status: HttpStatus)
    ensures
        final(out)@ == old(out)@ + response_head(status, "text/html".spec_bytes()),
{
    push_str_bytes(out, "HTTP/1.0 ");
    push_reason(out, status);
    push_str_bytes(out, "\r\nContent-Type: ");
    push_str_bytes(out, "text/html");
    push_str_bytes(out, "\r\n\r\n");
    proof {
        assert(final(out)@ =~= old(out)@ + response_head(status, "text/html".spec_bytes()));
    }
}

/// Appends the shared HTML chrome to `out`.
fn push_shell(out: &mut Vec<u8>)
    ensures
        final(out)@ == old(out)@ + page_shell(),
{
    push_str_bytes(
        out,
        "<head>\n<link href=\"css/bootstrap.min.css\" rel=\"stylesheet\"><link href=\"css/custom.css\" rel=\"stylesheet\"></head>\n<body>\n<div class=\"jumbotron\">\n<div class=\"container\">\n<h1 style=\"text-align: center; color: white\">Gourd Experts</h1><h4 style=\"text-align: center; color: white\">Burger, Gallahue, Inglis</h4></div>\n</div>\n",
    );
}

/// Appends the HTML escaping of `s` to `out`.
fn push_escaped(out: &mut Vec<u8>, s: &Vec<u8>)
    ensures
        final(out)@ == old(out)@ + escape_bytes(s@),
{
    let mut i: usize = 0;
    while i < s.len()
        invariant
            i <= s.len(),
            out@ == old(out)@ + escape_bytes(s@.subrange(0, i as int)),
        decreases s.len() - i,
    {
        let b = s[i];
        if b == AMPERSAND {
            push_str_bytes(out, "&amp;");
        } else if b == LESS_THAN {
            push_str_bytes(out, "&lt;");
        } else if b == GREATER_THAN {
            push_str_bytes(out, "&gt;");
        } else if b == DOUBLE_QUOTE {
            push_str_bytes(out, "&quot;");
        } else {
            out.push(b);
            proof {
                assert((old(out)@ + escape_bytes(s@.subrange(0, i as int))).push(b) =~= old(out)@
                    + (escape_bytes(s@.subrange(0, i as int)) + seq![b]));
            }
        }
        proof {
            let pre = s@.subrange(0, i + 1);
            assert(pre.drop_last() =~= s@.subrange(0, i as int));
            assert(pre.last() == s@[i as int]);
            assert(escape_bytes(pre) == escape_bytes(s@.subrange(0, i as int)) + escape_byte(b));
            assert(out@ =~= old(out)@ + escape_bytes(pre));
        }
        i = i + 1;
    }
    proof {
        assert(s@.subrange(0, s@.len() as int) =~= s@);
    }
}

/// Whether `uri` is exactly the root URI `/`.
fn uri_is_root(uri: &Vec<u8>) -> (r: bool)
    ensures
        r == (uri@ == seq![SLASH]),
{
    if uri.len() == 1 && uri[0] == SLASH {
        proof {
            assert(uri@ =~= seq![SLASH]);
        }
        true
    } else {
        proof {
            if uri@ == seq![SLASH] {
                assert(uri@.len() == 1);
                assert(uri@[0] == SLASH);
            }
        }
        false
    }
}

/// Appends one listing link for `name` under `uri` to `out`.
fn push_link(out: &mut Vec<u8>, uri: &Vec<u8>, name: &Vec<u8>)
    ensures
        final(out)@ == old(out)@ + link_for(uri@, name@),
{
    push_str_bytes(out, "<a href=\"");
    push_escaped(out, uri);
    if !uri_is_root(uri) {
        out.push(SLASH);
        proof {
            assert(out@ =~= old(out)@ + "<a href=\"".spec_bytes() + escape_bytes(uri@) + href_sep(
                uri@,
            ));
        }
    }
    push_escaped(out, name);
    push_str_bytes(out, "\" class=\"list-group-item list-group-item-action\">");
    push_escaped(out, name);
    push_str_bytes(out, "</a>");
    proof {
        assert(final(out)@ =~= old(out)@ + link_for(uri@, name@));
    }
}

/// Builds the complete directory-listing response for the request `uri`
/// and the directory's `entries`, in the order they were enumerated.
pub fn browse_response(uri: &Vec<u8>, entries: &Vec<Vec<u8>>) -> (r: Vec<u8>)
    ensures
        r@ == listing_response_bytes(uri@, entries.deep_view()),
{
    let mut out: Vec<u8> = Vec::new();
    push_html_head(&mut out, HttpStatus::OK);
    push_shell(&mut out);
    push_str_bytes(&mut out, "<div class=\"list-group container\">\n");
    let ghost pre = response_head(HttpStatus::OK, "text/html".spec_bytes()) + page_shell()
        + "<div class=\"list-group container\">\n".spec_bytes();
    proof {
        assert(out@ =~= pre);
        assert(listing_links(uri@, entries.deep_view().subrange(0, 0)) =~= Seq::<u8>::empty());
        assert(out@ =~= pre + listing_links(uri@, entries.deep_view().subrange(0, 0)));
    }
    let mut i: usize = 0;
    while i < entries.len()
        invariant
            i <= entries.len(),
            out@ == pre + listing_links(uri@, entries.deep_view().subrange(0, i as int)),
        decreases entries.len() - i,
    {
        push_link(&mut out, uri, &entries[i]);
        proof {
            let dv = entries.deep_view();
            let prefix = dv.subrange(0, i + 1);
            assert(prefix.drop_last() =~= dv.subrange(0, i as int));
            assert(prefix.last() == dv[i as int]);
            assert(dv[i as int] == entries@[i as int]@);
            assert(listing_links(uri@, prefix) == listing_links(uri@, dv.subrange(0, i as int))
                + link_for(uri@, dv[i as int]));
            assert(out@ =~= pre + listing_links(uri@, prefix));
        }
        i = i + 1;
    }
    push_str_bytes(&mut out, "</div>\n</body>\n");
    proof {
        assert(entries.deep_view().subrange(0, entries@.len() as int) =~= entries.deep_view());
        assert(out@ =~= listing_response_bytes(uri@, entries.deep_view()));
    }
    out
}

/// Builds the complete file-transfer response: OK head with the given
/// content type, then exactly the file's bytes.
pub fn file_response(content_type: &Vec<u8>, contents: &Vec<u8>) -> (r: Vec<u8>)
    ensures
        r@ == file_response_bytes(content_type@, contents@),
{
    let mut out: Vec<u8> = Vec::new();
    push_head(&mut out, HttpStatus::OK, content_type);
    push_vec_bytes(&mut out, contents);
    out
}

/// Builds the complete error response for `status`.
pub fn error_response(status: HttpStatus) -> (r: Vec<u8>)
    ensures
        r@ == error_response_bytes(status),
{
    let mut out: Vec<u8> = Vec::new();
    push_html_head(&mut out, status);
    push_shell(&mut out);
    push_str_bytes(&mut out, "<h1>");
    push_reason(&mut out, status);
    push_str_bytes(&mut out, "</h1>");
    match status {
        HttpStatus::OK => (),
        HttpStatus::BAD_REQUEST => push_str_bytes(&mut out, "<p>Bad gourd request.</p>"),
        HttpStatus::NOT_FOUND => push_str_bytes(
            &mut out,
            "<p>The gourd you seek could not be foud. Do not give up hope, there are plenty of gourds in the sea.</p>",
        ),
        HttpStatus::INTERNAL_SERVER_ERROR => push_str_bytes(
            &mut out,
            "<p>Something went wrong. Contact gourdhelp@nd.edu for assistance.</p>",
        ),
    }
    push_str_bytes(&mut out, "</body>");
    proof {
        assert(out@ =~= error_response_bytes(status));
    }
    out
}

} // verus!
