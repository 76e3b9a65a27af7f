//! Parsing a raw request buffer into a structured request, and reading its
//! headers.
//!
//! The buffer is split once on the first blank line (`CRLF CRLF`) into a
//! header block and a body remainder. The header block is split into lines
//! at each line feed, with a carriage return directly before the line feed
//! stripped. The first line must be method, target and version separated by
//! single spaces; every further line must contain `": "` once to separate a
//! header name from its value. Malformed input yields a structured error,
//! never a panic.

use vstd::prelude::*;
use vstd::slice::{slice_subrange, slice_to_vec};
use vstd::string::StringSliceAdditionalSpecFns;
use crate::scan::{
    spec_find_byte, spec_find_pat, lemma_find_byte, lemma_find_pat, find_byte, find_pat,
    bytes_eq,
};

verus! {

broadcast use vstd::slice::group_slice_axioms;

/// The two request methods the server understands; any other method token
/// is rejected.
#[derive(Clone, Copy, Debug, PartialEq, Eq, Structural)]
pub enum RequestMethod {
    GET,
    POST,
}

/// Why a buffer failed to parse as a request.
#[derive(Clone, Copy, Debug, PartialEq, Eq, Structural)]
pub enum ParseError {
    /// The first line is missing or is not three space-separated tokens.
    MalformedRequestLine,
    /// The method token is neither `GET` nor `POST`.
    UnsupportedMethod,
    /// A header line has no `": "` separator.
    MalformedHeader,
}

/// One header entry. Duplicate names are kept as separate entries; lookup
/// returns the first match, case-sensitively.
pub struct Header {
    pub name: Vec<u8>,
    pub value: Vec<u8>,
}

/// The mathematical value of a parsed request.
pub struct ReqModel {
    pub method: RequestMethod,
    pub uri: Seq<u8>,
    pub version: Seq<u8>,
    pub headers: Seq<(Seq<u8>, Seq<u8>)>,
    pub body: Seq<u8>,
}

/// A parsed request, owned by the connection that read it.
pub struct Reqeuest {
    pub method: RequestMethod,
    pub uri: Vec<u8>,
    pub version: Vec<u8>,
    pub headers: Vec<Header>,
    pub body: Vec<u8>,
}

pub open spec fn spec_headers_model(hs: Seq<Header>) -> Seq<(Seq<u8>, Seq<u8>)> {
    Seq::new(hs.len(), |i: int| (hs[i].name@, hs[i].value@))
}

impl View for Reqeuest {
    type V = ReqModel;

    open spec fn view(&self) -> ReqModel {
        ReqModel {
            method: self.method,
            uri: self.uri@,
            version: self.version@,
            headers: spec_headers_model(self.headers@),
            body: self.body@,
        }
    }
}

pub open spec fn spec_crlfcrlf() -> Seq<u8> {
    seq![13u8, 10u8, 13u8, 10u8]
}

pub open spec fn spec_colon_space() -> Seq<u8> {
    seq![58u8, 32u8]
}

/// The header block: everything before the first blank line, or the whole
/// buffer if there is none.
pub open spec fn spec_head(buf: Seq<u8>) -> Seq<u8> {
    match spec_find_pat(buf, spec_crlfcrlf(), 0) {
        Some(j) => buf.subrange(0, j),
        None => buf,
    }
}

/// The body: everything after the first blank line, or empty if there is
/// none.
pub open spec fn spec_body(buf: Seq<u8>) -> Seq<u8> {
    match spec_find_pat(buf, spec_crlfcrlf(), 0) {
        Some(j) => buf.subrange(j + 4, buf.len() as int),
        None => Seq::empty(),
    }
}

/// Drops one carriage return from the end of a line, if present.
pub open spec fn spec_strip_cr(line: Seq<u8>) -> Seq<u8> {
    if line.len() > 0 && line.last() == 13 {
        line.drop_last()
    } else {
        line
    }
}

/// The first line of the header block. A carriage return is stripped only
/// when the line was ended by a line feed.
pub open spec fn spec_first_line(head: Seq<u8>) -> Seq<u8> {
    match spec_find_byte(head, 10, 0) {
        Some(j) => spec_strip_cr(head.subrange(0, j)),
        None => head,
    }
}

/// Where the header lines begin, after the first line.
pub open spec fn spec_rest_start(head: Seq<u8>) -> int {
    match spec_find_byte(head, 10, 0) {
        Some(j) => j + 1,
        None => head.len() as int,
    }
}

/// Splits the request line into method, target and version: exactly three
/// tokens separated by single spaces.
pub open spec fn spec_request_line(line: Seq<u8>) -> Option<(Seq<u8>, Seq<u8>, Seq<u8>)> {
    match spec_find_byte(line, 32, 0) {
        None => None,
        Some(a) => match spec_find_byte(line, 32, a + 1) {
            None => None,
            Some(b) => if spec_find_byte(line, 32, b + 1) is Some {
                None
            } else {
                Some(
                    (
                        line.subrange(0, a),
                        line.subrange(a + 1, b),
                        line.subrange(b + 1, line.len() as int),
                    ),
                )
            },
        },
    }
}

pub open spec fn spec_method_of(tok: Seq<u8>) -> Option<RequestMethod> {
    if tok == "GET".spec_bytes() {
        Some(RequestMethod::GET)
    } else if tok == "POST".spec_bytes() {
        Some(RequestMethod::POST)
    } else {
        None
    }
}

/// Splits a header line at its first `": "`.
pub open spec fn spec_header_line(line: Seq<u8>) -> Option<(Seq<u8>, Seq<u8>)> {
    match spec_find_pat(line, spec_colon_space(), 0) {
        Some(j) => Some((line.subrange(0, j), line.subrange(j + 2, line.len() as int))),
        None => None,
    }
}

/// Parses the header lines of `head` from position `i` on, line by line.
pub open spec fn spec_headers_from(head: Seq<u8>, i: int) -> Option<Seq<(Seq<u8>, Seq<u8>)>>
    decreases head.len() - i,
    via spec_headers_from_decreases
{
    if i < 0 || i >= head.len() {
        Some(Seq::empty())
    } else {
        let line = match spec_find_byte(head, 10, i) {
            Some(j) => spec_strip_cr(head.subrange(i, j)),
            None => head.subrange(i, head.len() as int),
        };
        let next = match spec_find_byte(head, 10, i) {
            Some(j) => j + 1,
            None => head.len() as int,
        };
        match spec_header_line(line) {
            None => None,
            Some(h) => match spec_headers_from(head, next) {
                None => None,
                Some(rest) => Some(seq![h] + rest),
            },
        }
    }
}

#[via_fn]
proof fn spec_headers_from_decreases(head: Seq<u8>, i: int) {
    lemma_find_byte(head, 10, i);
}

/// The parse of a whole buffer.
pub open spec fn spec_parse(buf: Seq<u8>) -> Result<ReqModel, ParseError> {
    let head = spec_head(buf);
    if head.len() == 0 {
        Err(ParseError::MalformedRequestLine)
    } else {
        match spec_request_line(spec_first_line(head)) {
            None => Err(ParseError::MalformedRequestLine),
            Some(toks) => match spec_method_of(toks.0) {
                None => Err(ParseError::UnsupportedMethod),
                Some(method) => match spec_headers_from(head, spec_rest_start(head)) {
                    None => Err(ParseError::MalformedHeader),
                    Some(hs) => Ok(
                        ReqModel {
                            method,
                            uri: toks.1,
                            version: toks.2,
                            headers: hs,
                            body: spec_body(buf),
                        },
                    ),
                },
            },
        }
    }
}

/// Parses the header lines of `head` from `start` on into entries.
fn parse_headers(head: &[u8], start: usize) -> (r: Result<Vec<Header>, ParseError>)
    requires
        start <= head@.len(),
    ensures
        match spec_headers_from(head@, start as int) {
            Some(hs) => r matches Ok(v) && spec_headers_model(v@) == hs,
            None => r matches Err(e) && e == ParseError::MalformedHeader,
        },
{
    let mut cs: Vec<u8> = Vec::new();
    cs.push(58);
    cs.push(32);
    proof {
        assert(cs@ =~= spec_colon_space());
    }
    let mut headers: Vec<Header> = Vec::new();
    let mut pos: usize = start;
    while pos < head.len()
        invariant
            pos <= head@.len(),
            cs@ == spec_colon_space(),
            start <= head@.len(),
            match spec_headers_from(head@, pos as int) {
                Some(rest) => spec_headers_from(head@, start as int) == Some(
                    spec_headers_model(headers@) + rest,
                ),
                None => spec_headers_from(head@, start as int) is None,
            },
        decreases head@.len() - pos,
    {
        let lf: Option<usize> = find_byte(head, 10, pos);
        let (raw_line, next): (&[u8], usize) = match lf {
            Some(j) => (slice_subrange(head, pos, j), j + 1),
            None => (slice_subrange(head, pos, head.len()), head.len()),
        };
        let hline: &[u8] = if lf.is_some() && raw_line.len() > 0 && raw_line[raw_line.len() - 1]
            == 13 {
            slice_subrange(raw_line, 0, raw_line.len() - 1)
        } else {
            raw_line
        };
        proof {
            if lf is Some && raw_line@.len() > 0 {
                assert(raw_line@.drop_last() =~= raw_line@.subrange(0, raw_line@.len() - 1));
            }
            assert(hline@ == match spec_find_byte(head@, 10, pos as int) {
                Some(j) => spec_strip_cr(head@.subrange(pos as int, j)),
                None => head@.subrange(pos as int, head@.len() as int),
            });
        }
        match find_pat(hline, cs.as_slice(), 0) {
            None => {
                return Err(ParseError::MalformedHeader);
            },
            Some(j2) => {
                let name: Vec<u8> = slice_to_vec(slice_subrange(hline, 0, j2));
                let value: Vec<u8> = slice_to_vec(slice_subrange(hline, j2 + 2, hline.len()));
                proof {
                    let h = (name@, value@);
                    assert(spec_headers_model(headers@.push(
                        Header { name, value },
                    )) =~= spec_headers_model(headers@).push(h));
                    match spec_headers_from(head@, next as int) {
                        Some(rest) => {
                            assert(spec_headers_model(headers@) + (seq![h] + rest)
                                =~= spec_headers_model(headers@).push(h) + rest);
                        },
                        None => {},
                    }
                }
                headers.push(Header { name, value });
            },
        }
        pos = next;
    }
    proof {
        assert(spec_headers_model(headers@) + Seq::<(Seq<u8>, Seq<u8>)>::empty()
            =~= spec_headers_model(headers@));
    }
    Ok(headers)
}

impl Reqeuest {
    /// Parses one message out of a raw read buffer (any unused trailing
    /// capacity becomes part of the body remainder, as the read loop's
    /// fixed-size buffer leaves it).
    #[verifier::rlimit(50)]
    pub fn new(buffer: &[u8]) -> (r: Result<Reqeuest, ParseError>)
        ensures
            match spec_parse(buffer@) {
                Ok(m) => r matches Ok(q) && q@ == m,
                Err(e) => r matches Err(e2) && e2 == e,
            },
    {
        let mut sep: Vec<u8> = Vec::new();
        sep.push(13);
        sep.push(10);
        sep.push(13);
        sep.push(10);
        proof {
            assert(sep@ =~= spec_crlfcrlf());
        }
        let sep_s: &[u8] = sep.as_slice();
        let (head, body): (&[u8], Vec<u8>) = match find_pat(buffer, sep_s, 0) {
            Some(j) => {
                proof {
                    assert(sep_s@.len() == 4);
                    assert(vstd::slice::spec_slice_len(buffer) == buffer@.len());
                    assert(j + 4 <= buffer@.len());
                }
                let body_start: usize = j + 4;
                (
                    slice_subrange(buffer, 0, j),
                    slice_to_vec(slice_subrange(buffer, body_start, buffer.len())),
                )
            },
            None => (buffer, Vec::new()),
        };
        proof {
            assert(head@ == spec_head(buffer@));
            assert(body@ == spec_body(buffer@));
        }
        if head.len() == 0 {
            return Err(ParseError::MalformedRequestLine);
        }
        let first_lf: Option<usize> = find_byte(head, 10, 0);
        let (line_end, rest_start): (usize, usize) = match first_lf {
            Some(j) => (j, j + 1),
            None => (head.len(), head.len()),
        };
        let raw: &[u8] = slice_subrange(head, 0, line_end);
        let line: &[u8] = if first_lf.is_some() && raw.len() > 0 && raw[raw.len() - 1] == 13 {
            slice_subrange(raw, 0, raw.len() - 1)
        } else {
            raw
        };
        proof {
            if first_lf is Some && raw@.len() > 0 {
                assert(raw@.drop_last() =~= raw@.subrange(0, raw@.len() - 1));
            }
            assert(head@.subrange(0, head@.len() as int) =~= head@);
            assert(line@ == spec_first_line(head@));
            assert(rest_start as int == spec_rest_start(head@));
        }
        let a: usize = match find_byte(line, 32, 0) {
            Some(a) => a,
            None => {
                return Err(ParseError::MalformedRequestLine);
            },
        };
        let b: usize = match find_byte(line, 32, a + 1) {
            Some(b) => b,
            None => {
                return Err(ParseError::MalformedRequestLine);
            },
        };
        if find_byte(line, 32, b + 1).is_some() {
            return Err(ParseError::MalformedRequestLine);
        }
        let m_tok: &[u8] = slice_subrange(line, 0, a);
        let uri: Vec<u8> = slice_to_vec(slice_subrange(line, a + 1, b));
        let version: Vec<u8> = slice_to_vec(slice_subrange(line, b + 1, line.len()));
        let method: RequestMethod = if bytes_eq(m_tok, "GET".as_bytes()) {
            RequestMethod::GET
        } else if bytes_eq(m_tok, "POST".as_bytes()) {
            RequestMethod::POST
        } else {
            return Err(ParseError::UnsupportedMethod);
        };
        let headers: Vec<Header> = match parse_headers(head, rest_start) {
            Ok(hs) => hs,
            Err(e) => {
                return Err(e);
            },
        };
        let req = Reqeuest { method, uri, version, headers, body };
        Ok(req)
    }
}

/// First entry named `name` in the entries from `i` on.
pub open spec fn spec_header_first_from(
    hs: Seq<(Seq<u8>, Seq<u8>)>,
    name: Seq<u8>,
    i: int,
) -> Option<Seq<u8>>
    decreases hs.len() - i,
{
    if i < 0 || i >= hs.len() {
        None
    } else if hs[i].0 == name {
        Some(hs[i].1)
    } else {
        spec_header_first_from(hs, name, i + 1)
    }
}

/// Value of the first header entry named `name`, case-sensitively.
pub open spec fn spec_header_first(hs: Seq<(Seq<u8>, Seq<u8>)>, name: Seq<u8>) -> Option<
    Seq<u8>,
> {
    spec_header_first_from(hs, name, 0)
}

/// The request asks for the connection to be closed after the response.
pub open spec fn spec_wants_close(m: ReqModel) -> bool {
    spec_header_first(m.headers, "Connection".spec_bytes()) == Some("close".spec_bytes())
}

pub open spec fn spec_comma_space() -> Seq<u8> {
    seq![44u8, 32u8]
}

/// Whether the comma-space-separated list `v` contains the token `gzip` at
/// or after position `i`.
pub open spec fn spec_gzip_in_list_from(v: Seq<u8>, i: int) -> bool
    decreases v.len() - i,
    via spec_gzip_in_list_from_decreases
{
    if i < 0 || i > v.len() {
        false
    } else {
        match spec_find_pat(v, spec_comma_space(), i) {
            Some(j) => v.subrange(i, j) == "gzip".spec_bytes() || spec_gzip_in_list_from(
                v,
                j + 2,
            ),
            None => v.subrange(i, v.len() as int) == "gzip".spec_bytes(),
        }
    }
}

#[via_fn]
proof fn spec_gzip_in_list_from_decreases(v: Seq<u8>, i: int) {
    lemma_find_pat(v, spec_comma_space(), i);
}

/// The request's `Accept-Encoding` list offers gzip.
pub open spec fn spec_accepts_gzip(m: ReqModel) -> bool {
    match spec_header_first(m.headers, "Accept-Encoding".spec_bytes()) {
        Some(v) => spec_gzip_in_list_from(v, 0),
        None => false,
    }
}

impl Reqeuest {
    /// Value of the first header entry named `name`, if any.
    pub fn header_value(&self, name: &[u8]) -> (r: Option<&Vec<u8>>)
        ensures
            match r {
                Some(v) => spec_header_first(self@.headers, name@) == Some(v@),
                None => spec_header_first(self@.headers, name@) is None,
            },
    {
        let mut i: usize = 0;
        while i < self.headers.len()
            invariant
                i <= self.headers@.len(),
                spec_header_first_from(self@.headers, name@, 0) == spec_header_first_from(
                    self@.headers,
                    name@,
                    i as int,
                ),
            decreases self.headers@.len() - i,
        {
            let h: &Header = &self.headers[i];
            if bytes_eq(h.name.as_slice(), name) {
                return Some(&h.value);
            }
            i = i + 1;
        }
        None
    }

    /// Whether this request carries `Connection: close`, computed once per
    /// request and independent of the route.
    pub fn wants_close(&self) -> (r: bool)
        ensures
            r == spec_wants_close(self@),
    {
        match self.header_value("Connection".as_bytes()) {
            Some(v) => bytes_eq(v.as_slice(), "close".as_bytes()),
            None => false,
        }
    }

    /// Whether the request's `Accept-Encoding` list (if any) contains the
    /// token `gzip`, in any position.
    pub fn accepts_gzip(&self) -> (r: bool)
        ensures
            r == spec_accepts_gzip(self@),
    {
        let v: &Vec<u8> = match self.header_value("Accept-Encoding".as_bytes()) {
            Some(v) => v,
            None => {
                return false;
            },
        };
        let mut pat: Vec<u8> = Vec::new();
        pat.push(44);
        pat.push(32);
        proof {
            assert(pat@ =~= spec_comma_space());
        }
        let gz: &[u8] = "gzip".as_bytes();
        let vs: &[u8] = v.as_slice();
        proof {
            assert(vstd::slice::spec_slice_len(vs) == vs@.len());
        }
        let mut pos: usize = 0;
        loop
            invariant
                vs@ == v@,
                vs@.len() <= usize::MAX,
                pos <= v@.len(),
                pat@ == spec_comma_space(),
                gz@ == "gzip".spec_bytes(),
                spec_gzip_in_list_from(v@, 0) == spec_gzip_in_list_from(v@, pos as int),
                spec_accepts_gzip(self@) == spec_gzip_in_list_from(v@, 0),
            decreases v@.len() - pos,
        {
            match find_pat(vs, pat.as_slice(), pos) {
                Some(j) => {
                    if bytes_eq(slice_subrange(vs, pos, j), gz) {
                        return true;
                    }
                    pos = j + 2;
                },
                None => {
                    return bytes_eq(slice_subrange(vs, pos, vs.len()), gz);
                },
            }
        }
    }
}

} // verus!
