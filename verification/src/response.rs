//! Building the exact wire bytes of responses: a status line, headers each
//! ended by `CRLF`, a blank line, then the body. `Content-Length` is always
//! the actual byte length of the body being sent.

use vstd::prelude::*;
use vstd::string::StringSliceAdditionalSpecFns;
use crate::scan::{push_all, dec_of, spec_dec};

verus! {

broadcast use vstd::slice::group_slice_axioms;

/// The blank line that ends the header block.
pub open spec fn spec_blank() -> Seq<u8> {
    "\r\n\r\n".spec_bytes()
}

/// The `Connection: close` header, appended to the headers exactly when the
/// exchange is to close the connection.
pub open spec fn spec_close_part(close: bool) -> Seq<u8> {
    if close {
        "\r\nConnection: close".spec_bytes()
    } else {
        Seq::empty()
    }
}

pub open spec fn spec_status_ok() -> Seq<u8> {
    "HTTP/1.1 200 OK".spec_bytes()
}

pub open spec fn spec_status_created() -> Seq<u8> {
    "HTTP/1.1 201 Created".spec_bytes()
}

pub open spec fn spec_status_bad_request() -> Seq<u8> {
    "HTTP/1.1 400 Bad Request".spec_bytes()
}

pub open spec fn spec_status_not_found() -> Seq<u8> {
    "HTTP/1.1 404 Not Found".spec_bytes()
}

pub open spec fn spec_status_unsupported_media() -> Seq<u8> {
    "HTTP/1.1 415 Unsupported Media Type".spec_bytes()
}

/// Status line and headers of a plain-text response, up to the value of
/// `Content-Length`.
pub open spec fn spec_text_prefix() -> Seq<u8> {
    "HTTP/1.1 200 OK\r\nContent-Type: text/plain\r\nContent-Length: ".spec_bytes()
}

/// As `spec_text_prefix`, with `Content-Encoding: gzip`.
pub open spec fn spec_gzip_prefix() -> Seq<u8> {
    "HTTP/1.1 200 OK\r\nContent-Type: text/plain\r\nContent-Encoding: gzip\r\nContent-Length: ".spec_bytes()
}

/// Status line and headers of a file response, up to the value of
/// `Content-Length`.
pub open spec fn spec_octet_prefix() -> Seq<u8> {
    "HTTP/1.1 200 OK\r\nContent-Type: application/octet-stream\r\nContent-Length: ".spec_bytes()
}

/// A response with no body.
pub open spec fn spec_simple_response(status: Seq<u8>, close: bool) -> Seq<u8> {
    status + spec_close_part(close) + spec_blank()
}

/// A response carrying `body` after a `prefix` that ends with
/// `Content-Length: `; the length value is the body's actual byte length.
pub open spec fn spec_body_response(prefix: Seq<u8>, close: bool, body: Seq<u8>) -> Seq<u8> {
    prefix + spec_dec(body.len()) + spec_close_part(close) + spec_blank() + body
}

pub fn simple_response(status: &[u8], close: bool) -> (r: Vec<u8>)
    ensures
        r@ == spec_simple_response(status@, close),
{
    let mut out: Vec<u8> = Vec::new();
    push_all(&mut out, status);
    if close {
        push_all(&mut out, "\r\nConnection: close".as_bytes());
    }
    push_all(&mut out, "\r\n\r\n".as_bytes());
    proof {
        assert(out@ =~= spec_simple_response(status@, close));
    }
    out
}

pub fn body_response(prefix: &[u8], close: bool, body: &[u8]) -> (r: Vec<u8>)
    ensures
        r@ == spec_body_response(prefix@, close, body@),
{
    let mut out: Vec<u8> = Vec::new();
    push_all(&mut out, prefix);
    let n: Vec<u8> = dec_of(body.len());
    push_all(&mut out, n.as_slice());
    if close {
        push_all(&mut out, "\r\nConnection: close".as_bytes());
    }
    push_all(&mut out, "\r\n\r\n".as_bytes());
    push_all(&mut out, body);
    proof {
        assert(out@ =~= spec_body_response(prefix@, close, body@));
    }
    out
}

/// The 200 response for a file read that succeeded: its content as an
/// `application/octet-stream` body.
pub fn file_found_response(content: &[u8], close: bool) -> (r: Vec<u8>)
    ensures
        r@ == spec_body_response(spec_octet_prefix(), close, content@),
{
    body_response(
        "HTTP/1.1 200 OK\r\nContent-Type: application/octet-stream\r\nContent-Length: ".as_bytes(),
        close,
        content,
    )
}

/// The 404 response: no body.
pub fn not_found_response(close: bool) -> (r: Vec<u8>)
    ensures
        r@ == spec_simple_response(spec_status_not_found(), close),
{
    simple_response("HTTP/1.1 404 Not Found".as_bytes(), close)
}

/// The 201 response after a file was stored: no body.
pub fn created_response(close: bool) -> (r: Vec<u8>)
    ensures
        r@ == spec_simple_response(spec_status_created(), close),
{
    simple_response("HTTP/1.1 201 Created".as_bytes(), close)
}

} // verus!
