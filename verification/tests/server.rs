use spidey::HttpStatus;
use spidey::handler::ResourceData;
use spidey::http_status_string;
use spidey::request::ParseError;
use spidey::request::Request;
use spidey::request::parse_request;
use spidey::resolve::PathKind;
use spidey::resolve::is_within_root;
use spidey::response::browse_response;
use spidey::response::error_response;
use spidey::response::file_response;

fn v(s: &str) -> Vec<u8> {
    s.as_bytes().to_vec()
}

fn count_occurrences(hay: &[u8], needle: &[u8]) -> usize {
    if needle.len() > hay.len() {
        return 0;
    }
    let mut n = 0;
    for i in 0..=(hay.len() - needle.len()) {
        if &hay[i..i + needle.len()] == needle {
            n += 1;
        }
    }
    n
}

fn contains(hay: &[u8], needle: &[u8]) -> bool {
    count_occurrences(hay, needle) > 0
}

#[test]
fn parse_get_request() {
    let input = v("GET /index.html HTTP/1.0\r\nHost:example\r\n\r\n");
    let req = parse_request(&input).unwrap();
    assert_eq!(req.method, v("GET"));
    assert_eq!(req.uri, v("/index.html"));
    assert_eq!(req.headers.len(), 1);
    assert_eq!(req.headers[0].name, v("Host"));
    assert_eq!(req.headers[0].value, v("example"));
    assert!(req.resolved_path.is_none());
}

#[test]
fn parse_missing_uri_is_bad_request() {
    let input = v("GET\r\n\r\n");
    let r = parse_request(&input);
    assert_eq!(r.unwrap_err(), ParseError::BadRequestLine);
}

#[test]
fn parse_missing_method_is_bad_request() {
    let input = v("\r\n\r\n");
    let r = parse_request(&input);
    assert_eq!(r.unwrap_err(), ParseError::BadRequestLine);
}

#[test]
fn parse_header_without_colon_is_bad_header() {
    let input = v("GET / HTTP/1.0\r\nNoColonHere\r\n\r\n");
    let r = parse_request(&input);
    assert_eq!(r.unwrap_err(), ParseError::BadHeaderLine);
}

#[test]
fn parse_strips_spaces_from_header_lines() {
    let input = v("GET / HTTP/1.0\r\nHost : ex ample\r\n\r\n");
    let req = parse_request(&input).unwrap();
    assert_eq!(req.headers.len(), 1);
    assert_eq!(req.headers[0].name, v("Host"));
    assert_eq!(req.headers[0].value, v("example"));
}

#[test]
fn parse_keeps_header_wire_order_and_duplicates() {
    let input = v("GET / HTTP/1.0\r\nA:1\r\nA:2\r\nB:3\r\n\r\n");
    let req = parse_request(&input).unwrap();
    let pairs: Vec<(Vec<u8>, Vec<u8>)> =
        req.headers.iter().map(|h| (h.name.clone(), h.value.clone())).collect();
    assert_eq!(
        pairs,
        vec![(v("A"), v("1")), (v("A"), v("2")), (v("B"), v("3"))]
    );
}

#[test]
fn parse_stops_at_blank_line() {
    let input = v("GET / HTTP/1.0\r\nA:1\r\n\r\nNotAHeader\r\n");
    let req = parse_request(&input).unwrap();
    assert_eq!(req.headers.len(), 1);
    assert_eq!(req.headers[0].name, v("A"));
}

#[test]
fn parse_splits_header_on_first_colon_only() {
    let input = v("GET / HTTP/1.0\r\nA:b:c\r\n\r\n");
    let req = parse_request(&input).unwrap();
    assert_eq!(req.headers[0].name, v("A"));
    assert_eq!(req.headers[0].value, v("b:c"));
}

#[test]
fn within_root_accepts_descendants_and_self() {
    assert!(is_within_root(&v("/srv/www"), &v("/srv/www")));
    assert!(is_within_root(&v("/srv/www"), &v("/srv/www/index.html")));
    assert!(is_within_root(&v("/"), &v("/etc")));
}

#[test]
fn within_root_rejects_escapes() {
    assert!(!is_within_root(&v("/srv/www"), &v("/etc/passwd")));
    assert!(!is_within_root(&v("/srv/www"), &v("/srv/www-other/file")));
    assert!(!is_within_root(&v("/srv/www"), &v("/srv")));
}

#[test]
fn traversal_is_answered_not_found() {
    // A URI such as /../secret canonicalizes outside the root; the request
    // must be rejected, and the response must be the 404 page, not the
    // escaped file's bytes.
    let mut req = parse_request(&v("GET /../secret HTTP/1.0\r\n\r\n")).unwrap();
    let secret = v("top secret contents");
    let kind = req.determine_request_path(&v("/srv/www"), Some((v("/secret"), PathKind::File)));
    assert_eq!(kind, None);
    assert!(req.resolved_path.is_none());
    let (resp, status) = req.handle_request(kind, &ResourceData::Unavailable);
    assert_eq!(status, HttpStatus::NOT_FOUND);
    assert_eq!(resp, error_response(HttpStatus::NOT_FOUND));
    assert!(!contains(&resp, &secret));
}

#[test]
fn resolution_failure_is_answered_not_found() {
    let mut req = parse_request(&v("GET /missing.txt HTTP/1.0\r\n\r\n")).unwrap();
    let kind = req.determine_request_path(&v("/srv/www"), None);
    assert_eq!(kind, None);
    let (resp, status) = req.handle_request(kind, &ResourceData::Unavailable);
    assert_eq!(status, HttpStatus::NOT_FOUND);
    assert!(contains(&resp, b"<h1>404 Not Found</h1>"));
}

#[test]
fn accepted_path_is_stored_on_the_request() {
    let mut req = parse_request(&v("GET /index.html HTTP/1.0\r\n\r\n")).unwrap();
    let kind =
        req.determine_request_path(&v("/srv/www"), Some((v("/srv/www/index.html"), PathKind::File)));
    assert_eq!(kind, Some(PathKind::File));
    assert_eq!(req.resolved_path, Some(v("/srv/www/index.html")));
}

#[test]
fn file_transfer_carries_exact_bytes() {
    let contents = v("0123456789");
    let resp = file_response(&v("text/plain"), &contents);
    let head = v("HTTP/1.0 200 OK\r\nContent-Type: text/plain\r\n\r\n");
    assert_eq!(resp.len(), head.len() + contents.len());
    assert_eq!(&resp[..head.len()], &head[..]);
    assert_eq!(&resp[head.len()..], &contents[..]);
}

#[test]
fn listing_has_one_link_per_entry() {
    let entries = vec![v("a.txt"), v("b")];
    let resp = browse_response(&v("/docs"), &entries);
    assert_eq!(count_occurrences(&resp, b"<a href="), 2);
    assert!(contains(&resp, b"<a href=\"/docs/a.txt\""));
    assert!(contains(&resp, b"<a href=\"/docs/b\""));
    assert!(contains(&resp, b">a.txt</a>"));
    assert!(contains(&resp, b">b</a>"));
}

#[test]
fn listing_under_root_uri_has_single_slash() {
    let entries = vec![v("a.txt")];
    let resp = browse_response(&v("/"), &entries);
    assert!(contains(&resp, b"<a href=\"/a.txt\""));
    assert!(!contains(&resp, b"<a href=\"//a.txt\""));
}

#[test]
fn listing_escapes_entry_names_and_uri() {
    let entries = vec![v("a<b&c\".txt")];
    let resp = browse_response(&v("/docs"), &entries);
    assert!(contains(&resp, b"a&lt;b&amp;c&quot;.txt"));
    assert!(!contains(&resp, b"a<b&c\".txt"));
}

#[test]
fn directory_request_is_answered_with_listing() {
    let mut req = parse_request(&v("GET /docs/ HTTP/1.0\r\n\r\n")).unwrap();
    let kind = req.determine_request_path(&v("/srv/www"), Some((v("/srv/www/docs"), PathKind::Directory)));
    assert_eq!(kind, Some(PathKind::Directory));
    let entries = vec![v("guide.html"), v("notes.txt")];
    let (resp, status) = req.handle_request(kind, &ResourceData::DirEntries(entries));
    assert_eq!(status, HttpStatus::OK);
    assert!(resp.starts_with(b"HTTP/1.0 200 OK\r\nContent-Type: text/html\r\n\r\n"));
    assert!(contains(&resp, b"<a href=\"/docs//guide.html\""));
    assert!(contains(&resp, b"<a href=\"/docs//notes.txt\""));
}

#[test]
fn file_request_is_answered_with_contents() {
    // root /srv/www holding index.html of exactly 10 bytes
    let mut req = parse_request(&v("GET /index.html HTTP/1.0\r\n\r\n")).unwrap();
    let kind =
        req.determine_request_path(&v("/srv/www"), Some((v("/srv/www/index.html"), PathKind::File)));
    assert_eq!(kind, Some(PathKind::File));
    let body = v("ten bytes!");
    assert_eq!(body.len(), 10);
    let (resp, status) = req.handle_request(kind, &ResourceData::FileContents(v("text/plain"), body.clone()));
    assert_eq!(status, HttpStatus::OK);
    assert!(resp.starts_with(b"HTTP/1.0 200 OK\r\nContent-Type: text/plain\r\n\r\n"));
    assert_eq!(&resp[resp.len() - 10..], &body[..]);
}

#[test]
fn other_resource_kind_is_answered_bad_request() {
    let mut req = parse_request(&v("GET /dev-thing HTTP/1.0\r\n\r\n")).unwrap();
    let kind = req.determine_request_path(&v("/"), Some((v("/dev-thing"), PathKind::Other)));
    assert_eq!(kind, Some(PathKind::Other));
    let (resp, status) = req.handle_request(kind, &ResourceData::Unavailable);
    assert_eq!(status, HttpStatus::BAD_REQUEST);
    assert!(contains(&resp, b"<h1>400 Bad Request</h1>"));
    assert!(contains(&resp, b"<p>Bad gourd request.</p>"));
}

#[test]
fn failed_fetch_is_answered_internal_error() {
    let mut req = parse_request(&v("GET /index.html HTTP/1.0\r\n\r\n")).unwrap();
    let kind =
        req.determine_request_path(&v("/srv/www"), Some((v("/srv/www/index.html"), PathKind::File)));
    let (resp, status) = req.handle_request(kind, &ResourceData::Unavailable);
    assert_eq!(status, HttpStatus::INTERNAL_SERVER_ERROR);
    assert!(contains(&resp, b"<h1>500 Internal Server Error</h1>"));
    assert!(contains(
        &resp,
        b"<p>Something went wrong. Contact gourdhelp@nd.edu for assistance.</p>"
    ));
}

#[test]
fn error_page_not_found_text() {
    let resp = error_response(HttpStatus::NOT_FOUND);
    assert!(resp.starts_with(b"HTTP/1.0 404 Not Found\r\nContent-Type: text/html\r\n\r\n"));
    assert!(contains(&resp, b"<h1>404 Not Found</h1>"));
    assert!(contains(
        &resp,
        b"<p>The gourd you seek could not be foud. Do not give up hope, there are plenty of gourds in the sea.</p>"
    ));
    assert!(resp.ends_with(b"</body>"));
}

#[test]
fn http_status_strings_are_exact() {
    assert_eq!(http_status_string(HttpStatus::OK), "200 OK");
    assert_eq!(http_status_string(HttpStatus::BAD_REQUEST), "400 Bad Request");
    assert_eq!(http_status_string(HttpStatus::NOT_FOUND), "404 Not Found");
    assert_eq!(
        http_status_string(HttpStatus::INTERNAL_SERVER_ERROR),
        "500 Internal Server Error"
    );
}

#[test]
fn request_new_is_empty() {
    let req = Request::new();
    assert!(req.method.is_empty());
    assert!(req.uri.is_empty());
    assert!(req.headers.is_empty());
    assert!(req.resolved_path.is_none());
}

#[test]
fn header_new_keeps_name_and_value() {
    let h = spidey::request::Header::new(v("Host"), v("example"));
    assert_eq!(h.name, v("Host"));
    assert_eq!(h.value, v("example"));
}
