//! Parsing the raw bytes of one request into a structured request:
//! method, URI, and the ordered header list.
//!
//! The request text is split on `\r\n`. The first line yields the method
//! and the URI as its first two whitespace-delimited tokens; a line that
//! lacks either token is a malformed request. Each further line has its
//! spaces removed and is split on its first `:`; an empty name (the blank
//! line that ends the headers) stops header parsing, and a non-empty line
//! without a `:` is a malformed request.

use vstd::prelude::*;

use crate::bytes::sub_vec;
use crate::resolve::PathKind;
use crate::resolve::is_within_root;
use crate::resolve::spec_resolve;

verus! {

/// Carriage return, the first byte of the line terminator.
pub const CR: u8 = 13;

/// Line feed, the second byte of the line terminator.
pub const LF: u8 = 10;

/// Space, the byte removed from header lines.
pub const SP: u8 = 32;

/// Colon, the byte separating a header name from its value.
pub const COLON: u8 = 58;

/// Why a request failed to parse.
#[derive(Copy, Clone, PartialEq, Eq, Structural, Debug)]
pub enum ParseError {
    /// The request line lacks a method or a URI token.
    BadRequestLine,
    /// A non-empty header line has no `:`.
    BadHeaderLine,
}

/// One request header, name and value as they stood on the wire
/// (spaces removed, split at the first `:`).
#[derive(Clone, Debug)]
pub struct Header {
    pub name: Vec<u8>,
    pub value: Vec<u8>,
}

/// The mathematical value of a header.
pub struct HeaderView {
    pub name: Seq<u8>,
    pub value: Seq<u8>,
}

impl View for Header {
    type V = HeaderView;

    open spec fn view(&self) -> HeaderView {
        HeaderView { name: self.name@, value: self.value@ }
    }
}

impl DeepView for Header {
    type V = HeaderView;

    open spec fn deep_view(&self) -> HeaderView {
        self@
    }
}

impl Header {
    /// Builds a header from its name and value.
    pub fn new(name: Vec<u8>, value: Vec<u8>) -> (r: Header)
        ensures
            r@ == (HeaderView { name: name@, value: value@ }),
    {
        Header { name, value }
    }
}

/// One request: method and URI from the request line, the headers in wire
/// order, and, once resolution has succeeded, the canonical filesystem path.
#[derive(Debug)]
pub struct Request {
    pub method: Vec<u8>,
    pub uri: Vec<u8>,
    pub headers: Vec<Header>,
    pub resolved_path: Option<Vec<u8>>,
}

/// The mathematical value of a request.
pub struct RequestView {
    pub method: Seq<u8>,
    pub uri: Seq<u8>,
    pub headers: Seq<HeaderView>,
    pub resolved_path: Option<Seq<u8>>,
}

impl View for Request {
    type V = RequestView;

    open spec fn view(&self) -> RequestView {
        RequestView {
            method: self.method@,
            uri: self.uri@,
            headers: self.headers.deep_view(),
            resolved_path: match self.resolved_path {
                Some(p) => Some(p@),
                None => None,
            },
        }
    }
}

impl Request {
    /// Builds an empty request: no method, no URI, no headers, no path.
    pub fn new() -> (r: Request)
        ensures
            r@.method == Seq::<u8>::empty(),
            r@.uri == Seq::<u8>::empty(),
            r@.headers == Seq::<HeaderView>::empty(),
            r@.resolved_path is None,
    {
        let r = Request { method: Vec::new(), uri: Vec::new(), headers: Vec::new(), resolved_path: None };
        proof {
            assert(r.headers.deep_view() =~= Seq::<HeaderView>::empty());
        }
        r
    }

    /// Resolution step: given the canonical root and the outcome of
    /// canonicalizing the root joined with this request's URI, stores the
    /// canonical path and returns the resource's kind when the path lies
    /// within the root; returns nothing — and leaves the request unchanged
    /// — when canonicalization failed or the path escapes the root.
    pub fn determine_request_path(
        &mut self,
        root: &Vec<u8>,
        canonical: Option<(Vec<u8>, PathKind)>,
    ) -> (r: Option<PathKind>)
        ensures
            final(self)@.method == old(self)@.method,
            final(self)@.uri == old(self)@.uri,
            final(self)@.headers == old(self)@.headers,
            ({
                let c = match canonical {
                    Some(pk) => Some((pk.0@, pk.1)),
                    None => None,
                };
                match spec_resolve(root@, c) {
                    Some(pk) => r == Some(pk.1) && final(self)@.resolved_path == Some(pk.0),
                    None => r is None && final(self)@.resolved_path == old(self)@.resolved_path,
                }
            }),
    {
        match canonical {
            None => None,
            Some((p, k)) => {
                if is_within_root(root, &p) {
                    self.resolved_path = Some(p);
                    Some(k)
                } else {
                    None
                }
            },
        }
    }
}

/// Whether a byte is whitespace for request-line tokenization.
pub open spec fn is_ws(b: u8) -> bool {
    b == SP || b == 9 || b == LF || b == 11 || b == 12 || b == CR
}

/// The index of the first `\r\n` at or after `from`, or the length of `s`
/// when no line terminator follows.
pub open spec fn line_end(s: Seq<u8>, from: int) -> int
    decreases s.len() - from when 0 <= from <= s.len()
{
    if from + 1 >= s.len() {
        s.len() as int
    } else if s[from] == CR && s[from + 1] == LF {
        from
    } else {
        line_end(s, from + 1)
    }
}

/// `line_end` stays within `[from, len]`, and points at a terminator that
/// fits before the end whenever it is not the length itself.
pub proof fn lemma_line_end_bounds(s: Seq<u8>, from: int)
    requires
        0 <= from <= s.len(),
    ensures
        from <= line_end(s, from) <= s.len(),
        line_end(s, from) < s.len() ==> line_end(s, from) + 2 <= s.len(),
    decreases s.len() - from,
{
    if from + 1 >= s.len() {
    } else if s[from] == CR && s[from + 1] == LF {
    } else {
        lemma_line_end_bounds(s, from + 1);
    }
}

/// The index of the first non-whitespace byte at or after `from`, or the
/// length of `s`.
pub open spec fn skip_ws(s: Seq<u8>, from: int) -> int
    decreases s.len() - from when 0 <= from <= s.len()
{
    if from >= s.len() {
        s.len() as int
    } else if is_ws(s[from]) {
        skip_ws(s, from + 1)
    } else {
        from
    }
}

/// The index of the first whitespace byte at or after `from`, or the
/// length of `s`.
pub open spec fn token_end(s: Seq<u8>, from: int) -> int
    decreases s.len() - from when 0 <= from <= s.len()
{
    if from >= s.len() {
        s.len() as int
    } else if is_ws(s[from]) {
        from
    } else {
        token_end(s, from + 1)
    }
}

/// The index of the first `:` at or after `from`, or the length of `s`.
pub open spec fn colon_pos(s: Seq<u8>, from: int) -> int
    decreases s.len() - from when 0 <= from <= s.len()
{
    if from >= s.len() {
        s.len() as int
    } else if s[from] == COLON {
        from
    } else {
        colon_pos(s, from + 1)
    }
}

/// The line with its spaces removed.
pub open spec fn strip_spaces(s: Seq<u8>) -> Seq<u8>
    decreases s.len(),
{
    if s.len() == 0 {
        Seq::empty()
    } else if s.last() == SP {
        strip_spaces(s.drop_last())
    } else {
        strip_spaces(s.drop_last()).push(s.last())
    }
}

/// The first whitespace-delimited token of a line (the method).
pub open spec fn first_token(line: Seq<u8>) -> Seq<u8> {
    line.subrange(skip_ws(line, 0), token_end(line, skip_ws(line, 0)))
}

/// The second whitespace-delimited token of a line (the URI).
pub open spec fn second_token(line: Seq<u8>) -> Seq<u8> {
    let m_end = token_end(line, skip_ws(line, 0));
    let u_start = skip_ws(line, m_end);
    line.subrange(u_start, token_end(line, u_start))
}

/// The headers parsed from the lines starting at byte `pos`: stops at the
/// first line whose space-stripped text is empty or starts with `:`, and
/// fails on a non-empty line without a `:`.
pub open spec fn spec_headers(s: Seq<u8>, pos: int) -> Result<Seq<HeaderView>, ParseError>
    decreases s.len() - pos when 0 <= pos <= s.len() via spec_headers_decreases
{
    let e = line_end(s, pos);
    let st = strip_spaces(s.subrange(pos, e));
    if st.len() == 0 || st[0] == COLON {
        Ok(Seq::empty())
    } else if colon_pos(st, 0) == st.len() {
        Err(ParseError::BadHeaderLine)
    } else {
        let c = colon_pos(st, 0);
        let h = HeaderView { name: st.subrange(0, c), value: st.subrange(c + 1, st.len() as int) };
        if e >= s.len() {
            Ok(seq![h])
        } else {
            match spec_headers(s, e + 2) {
                Ok(rest) => Ok(seq![h] + rest),
                Err(x) => Err(x),
            }
        }
    }
}

#[via_fn]
proof fn spec_headers_decreases(s: Seq<u8>, pos: int) {
    lemma_line_end_bounds(s, pos);
}

/// The parse of one request's bytes: the method and URI tokens of the
/// first line, then the headers of the following lines. `resolved_path`
/// is absent: resolution has not run yet.
pub open spec fn spec_parse(s: Seq<u8>) -> Result<RequestView, ParseError> {
    let e = line_end(s, 0);
    let rl = s.subrange(0, e);
    let m = first_token(rl);
    let u = second_token(rl);
    if m.len() == 0 || u.len() == 0 {
        Err(ParseError::BadRequestLine)
    } else {
        let hstart = if e >= s.len() {
            s.len() as int
        } else {
            e + 2
        };
        match spec_headers(s, hstart) {
            Ok(hs) => Ok(
                RequestView { method: m, uri: u, headers: hs, resolved_path: None },
            ),
            Err(x) => Err(x),
        }
    }
}

/// A request line whose second token is absent cannot parse: the request
/// is answered with BAD_REQUEST rather than crashing the handler.
pub proof fn lemma_missing_uri_rejected(s: Seq<u8>)
    requires
        second_token(s.subrange(0, line_end(s, 0))).len() == 0,
    ensures
        spec_parse(s) == Err::<RequestView, ParseError>(ParseError::BadRequestLine),
{
}

/// Finds the first `\r\n` at or after `from`.
fn find_line_end(s: &Vec<u8>, from: usize) -> (r: usize)
    requires
        from <= s.len(),
    ensures
        r == line_end(s@, from as int),
        from <= r <= s.len(),
        r < s.len() ==> r + 2 <= s.len(),
{
    proof {
        lemma_line_end_bounds(s@, from as int);
    }
    let mut i: usize = from;
    loop
        invariant
            from <= i <= s.len(),
            line_end(s@, from as int) == line_end(s@, i as int),
        decreases s.len() - i,
    {
        if s.len() - i <= 1 {
            assert(line_end(s@, i as int) == s@.len());
            return s.len();
        }
        if s[i] == CR && s[i + 1] == LF {
            assert(line_end(s@, i as int) == i);
            return i;
        }
        assert(line_end(s@, i as int) == line_end(s@, i as int + 1));
        i = i + 1;
    }
}

/// Finds the first non-whitespace byte at or after `from`.
fn find_skip_ws(s: &Vec<u8>, from: usize) -> (r: usize)
    requires
        from <= s.len(),
    ensures
        r == skip_ws(s@, from as int),
        from <= r <= s.len(),
{
    let mut i: usize = from;
    loop
        invariant
            from <= i <= s.len(),
            skip_ws(s@, from as int) == skip_ws(s@, i as int),
        decreases s.len() - i,
    {
        if i >= s.len() {
            return i;
        }
        let b = s[i];
        if !(b == SP || b == 9 || b == LF || b == 11 || b == 12 || b == CR) {
            return i;
        }
        i = i + 1;
    }
}

/// Finds the first whitespace byte at or after `from`.
fn find_token_end(s: &Vec<u8>, from: usize) -> (r: usize)
    requires
        from <= s.len(),
    ensures
        r == token_end(s@, from as int),
        from <= r <= s.len(),
{
    let mut i: usize = from;
    loop
        invariant
            from <= i <= s.len(),
            token_end(s@, from as int) == token_end(s@, i as int),
        decreases s.len() - i,
    {
        if i >= s.len() {
            return i;
        }
        let b = s[i];
        if b == SP || b == 9 || b == LF || b == 11 || b == 12 || b == CR {
            return i;
        }
        i = i + 1;
    }
}

/// Finds the first `:` in `s`.
fn find_colon(s: &Vec<u8>) -> (r: usize)
    ensures
        r == colon_pos(s@, 0),
        r <= s.len(),
{
    let mut i: usize = 0;
    loop
        invariant
            i <= s.len(),
            colon_pos(s@, 0) == colon_pos(s@, i as int),
        decreases s.len() - i,
    {
        if i >= s.len() {
            return i;
        }
        if s[i] == COLON {
            return i;
        }
        i = i + 1;
    }
}

/// Copies the subrange `[from, to)` of `s` with its spaces removed.
fn remove_spaces(s: &Vec<u8>, from: usize, to: usize) -> (r: Vec<u8>)
    requires
        from <= to <= s.len(),
    ensures
        r@ == strip_spaces(s@.subrange(from as int, to as int)),
{
    let mut out: Vec<u8> = Vec::new();
    let mut i: usize = from;
    while i < to
        invariant
            from <= i <= to <= s.len(),
            out@ == strip_spaces(s@.subrange(from as int, i as int)),
        decreases to - i,
    {
        let b = s[i];
        if b != SP {
            out.push(b);
        }
        proof {
            let pre = s@.subrange(from as int, i + 1);
            assert(pre.drop_last() =~= s@.subrange(from as int, i as int));
            assert(pre.last() == s@[i as int]);
        }
        i = i + 1;
    }
    out
}

/// Parses one request's bytes into a structured request, exactly as
/// `spec_parse` describes; a malformed request line or header line comes
/// back as the corresponding error.
pub fn parse_request(input: &Vec<u8>) -> (r: Result<Request, ParseError>)
    ensures
        match r {
            Ok(req) => spec_parse(input@) == Ok::<RequestView, ParseError>(req@) && req.resolved_path is None,
            Err(e) => spec_parse(input@) == Err::<RequestView, ParseError>(e),
        },
{
    let e = find_line_end(input, 0);
    let rl = sub_vec(input, 0, e);
    let a = find_skip_ws(&rl, 0);
    let b = find_token_end(&rl, a);
    let c = find_skip_ws(&rl, b);
    let d = find_token_end(&rl, c);
    if b == a || d == c {
        return Err(ParseError::BadRequestLine);
    }
    let method = sub_vec(&rl, a, b);
    let uri = sub_vec(&rl, c, d);

    let mut pos: usize = if e >= input.len() {
        input.len()
    } else {
        e + 2
    };
    let ghost hstart = pos as int;
    let mut headers: Vec<Header> = Vec::new();
    proof {
        assert(headers.deep_view() =~= Seq::<HeaderView>::empty());
        if let Ok(rest) = spec_headers(input@, hstart) {
            assert(headers.deep_view() + rest =~= rest);
        }
    }
    loop
        invariant
            pos <= input.len(),
            match spec_headers(input@, pos as int) {
                Ok(rest) => spec_headers(input@, hstart) == Ok::<Seq<HeaderView>, ParseError>(
                    headers.deep_view() + rest,
                ),
                Err(x) => spec_headers(input@, hstart) == Err::<Seq<HeaderView>, ParseError>(x),
            },
            spec_headers(input@, hstart) matches Ok(all) ==> spec_parse(input@) == Ok::<
                RequestView,
                ParseError,
            >(
                RequestView {
                    method: method@,
                    uri: uri@,
                    headers: all,
                    resolved_path: None,
                },
            ),
            spec_headers(input@, hstart) matches Err(x) ==> spec_parse(input@) == Err::<
                RequestView,
                ParseError,
            >(x),
        ensures
            spec_headers(input@, hstart) == Ok::<Seq<HeaderView>, ParseError>(headers.deep_view()),
            spec_parse(input@) matches Ok(rv) ==> rv.method == method@ && rv.uri == uri@,
            spec_headers(input@, hstart) matches Ok(all) ==> spec_parse(input@) == Ok::<
                RequestView,
                ParseError,
            >(RequestView { method: method@, uri: uri@, headers: all, resolved_path: None }),
        decreases input.len() - pos,
    {
        let le = find_line_end(input, pos);
        let st = remove_spaces(input, pos, le);
        if st.len() == 0 || st[0] == COLON {
            // End of the header section: the remaining lines carry nothing.
            assert(spec_headers(input@, pos as int) == Ok::<Seq<HeaderView>, ParseError>(
                Seq::empty(),
            ));
            proof {
                assert(headers.deep_view() + Seq::<HeaderView>::empty() =~= headers.deep_view());
            }
            break;
        }
        let cp = find_colon(&st);
        if cp == st.len() {
            assert(spec_headers(input@, pos as int) == Err::<Seq<HeaderView>, ParseError>(
                ParseError::BadHeaderLine,
            ));
            return Err(ParseError::BadHeaderLine);
        }
        let name = sub_vec(&st, 0, cp);
        let value = sub_vec(&st, cp + 1, st.len());
        let ghost hv = HeaderView { name: name@, value: value@ };
        let ghost old_dv = headers.deep_view();
        headers.push(Header { name, value });
        proof {
            assert(headers.deep_view() =~= old_dv.push(hv));
        }
        if le >= input.len() {
            // Last piece of the text: the header list ends with this one.
            assert(spec_headers(input@, pos as int) == Ok::<Seq<HeaderView>, ParseError>(seq![hv]));
            proof {
                assert(old_dv + seq![hv] =~= headers.deep_view());
                assert(headers.deep_view() + Seq::<HeaderView>::empty() =~= headers.deep_view());
            }
            pos = input.len();
            assert(spec_headers(input@, pos as int) == Ok::<Seq<HeaderView>, ParseError>(
                Seq::empty(),
            ));
            break;
        }
        proof {
            if let Ok(rest2) = spec_headers(input@, le + 2) {
                assert(spec_headers(input@, pos as int) == Ok::<Seq<HeaderView>, ParseError>(
                    seq![hv] + rest2,
                ));
                assert(old_dv + (seq![hv] + rest2) =~= headers.deep_view() + rest2);
            }
        }
        pos = le + 2;
    }
    let req = Request { method, uri, headers, resolved_path: None };
    Ok(req)
}

} // verus!
