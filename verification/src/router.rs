//! Routing a parsed request to its behavior and producing the exact wire
//! bytes of the response, or the file action that must happen before the
//! response can be built.
//!
//! Routes are matched in order: `/` exactly, then the prefixes `/echo/`,
//! `/user-agent` and `/files`, then 404. The connection-close decision is
//! made once per request, independent of the route.

use vstd::prelude::*;
use vstd::slice::{slice_subrange, slice_to_vec};
use vstd::string::StringSliceAdditionalSpecFns;
use crate::scan::{
    spec_find_byte, spec_starts_with, spec_parse_usize, find_byte, starts_with, bytes_eq,
    parse_usize,
};
use crate::request::{
    Reqeuest, ReqModel, RequestMethod, spec_header_first, spec_wants_close, spec_accepts_gzip,
    spec_parse,
};
use crate::response::{
    spec_simple_response, spec_body_response, spec_status_ok, spec_status_created,
    spec_status_bad_request, spec_status_not_found, spec_status_unsupported_media,
    spec_text_prefix, spec_gzip_prefix, simple_response, body_response,
};
use crate::gzip::{gzip_of, gzip_compress};

verus! {

broadcast use vstd::slice::group_slice_axioms;

/// What one exchange comes to: either the response bytes are ready, or a
/// file must first be read or written under the configured base directory.
/// `close` is whether the connection is to end after this response.
pub enum RouteResult {
    Done { bytes: Vec<u8>, close: bool },
    ReadFile { name: Vec<u8>, close: bool },
    WriteFile { name: Vec<u8>, contents: Vec<u8>, close: bool },
}

/// The mathematical value of a `RouteResult`.
pub enum RouteModel {
    Done { bytes: Seq<u8>, close: bool },
    ReadFile { name: Seq<u8>, close: bool },
    WriteFile { name: Seq<u8>, contents: Seq<u8>, close: bool },
}

impl View for RouteResult {
    type V = RouteModel;

    open spec fn view(&self) -> RouteModel {
        match self {
            RouteResult::Done { bytes, close } => RouteModel::Done {
                bytes: bytes@,
                close: *close,
            },
            RouteResult::ReadFile { name, close } => RouteModel::ReadFile {
                name: name@,
                close: *close,
            },
            RouteResult::WriteFile { name, contents, close } => RouteModel::WriteFile {
                name: name@,
                contents: contents@,
                close: *close,
            },
        }
    }
}

/// The third slash-separated component of `u`: what `/echo/<seg>` and
/// `/files/<name>` carry, up to the next slash or the end.
pub open spec fn spec_third_component(u: Seq<u8>) -> Option<Seq<u8>> {
    match spec_find_byte(u, 47, 0) {
        None => None,
        Some(a) => match spec_find_byte(u, 47, a + 1) {
            None => None,
            Some(b) => match spec_find_byte(u, 47, b + 1) {
                Some(c) => Some(u.subrange(b + 1, c)),
                None => Some(u.subrange(b + 1, u.len() as int)),
            },
        },
    }
}

/// The echoed segment: the third component, or empty where the target has
/// no third component.
pub open spec fn spec_seg_or_empty(u: Seq<u8>) -> Seq<u8> {
    match spec_third_component(u) {
        Some(s) => s,
        None => Seq::empty(),
    }
}

/// The `User-Agent` value reflected by `/user-agent`, empty if absent.
pub open spec fn spec_user_agent(m: ReqModel) -> Seq<u8> {
    match spec_header_first(m.headers, "User-Agent".spec_bytes()) {
        Some(v) => v,
        None => Seq::empty(),
    }
}

/// A `/files` POST carries the right media type.
pub open spec fn spec_post_media_ok(m: ReqModel) -> bool {
    match spec_header_first(m.headers, "Content-Type".spec_bytes()) {
        Some(v) => v == "application/octet-stream".spec_bytes(),
        None => false,
    }
}

/// The number the `Content-Length` header gives; missing or unparseable
/// counts as zero.
pub open spec fn spec_content_length(m: ReqModel) -> nat {
    match spec_header_first(m.headers, "Content-Length".spec_bytes()) {
        Some(v) => spec_parse_usize(v),
        None => 0,
    }
}

/// The bytes a `/files` POST stores: the first `Content-Length` bytes of
/// the body, or the whole body where it is shorter than that.
pub open spec fn spec_post_contents(m: ReqModel) -> Seq<u8> {
    let n = spec_content_length(m);
    if n <= m.body.len() {
        m.body.subrange(0, n as int)
    } else {
        m.body
    }
}

/// The route table: which response bytes, or which file action, a request
/// draws, given whether a base directory is configured.
pub open spec fn spec_route(m: ReqModel, has_dir: bool) -> RouteModel {
    let close = spec_wants_close(m);
    let not_found = RouteModel::Done {
        bytes: spec_simple_response(spec_status_not_found(), close),
        close,
    };
    if m.uri == "/".spec_bytes() {
        RouteModel::Done { bytes: spec_simple_response(spec_status_ok(), close), close }
    } else if spec_starts_with(m.uri, "/echo/".spec_bytes()) {
        if spec_accepts_gzip(m) {
            RouteModel::Done {
                bytes: spec_body_response(
                    spec_gzip_prefix(),
                    close,
                    gzip_of(spec_seg_or_empty(m.uri)),
                ),
                close,
            }
        } else {
            RouteModel::Done {
                bytes: spec_body_response(spec_text_prefix(), close, spec_seg_or_empty(m.uri)),
                close,
            }
        }
    } else if spec_starts_with(m.uri, "/user-agent".spec_bytes()) {
        RouteModel::Done {
            bytes: spec_body_response(spec_text_prefix(), close, spec_user_agent(m)),
            close,
        }
    } else if spec_starts_with(m.uri, "/files".spec_bytes()) {
        if !has_dir {
            not_found
        } else {
            match m.method {
                RequestMethod::GET => match spec_third_component(m.uri) {
                    Some(name) => RouteModel::ReadFile { name, close },
                    None => not_found,
                },
                RequestMethod::POST => if spec_post_media_ok(m) {
                    match spec_third_component(m.uri) {
                        Some(name) => RouteModel::WriteFile {
                            name,
                            contents: spec_post_contents(m),
                            close,
                        },
                        None => not_found,
                    }
                } else {
                    RouteModel::Done {
                        bytes: spec_simple_response(spec_status_unsupported_media(), close),
                        close,
                    }
                },
            }
        }
    } else {
        not_found
    }
}

fn third_component(u: &[u8]) -> (r: Option<Vec<u8>>)
    ensures
        match r {
            Some(v) => spec_third_component(u@) == Some(v@),
            None => spec_third_component(u@) is None,
        },
{
    proof {
        assert(vstd::slice::spec_slice_len(u) == u@.len());
    }
    let a: usize = match find_byte(u, 47, 0) {
        Some(a) => a,
        None => {
            return None;
        },
    };
    let b: usize = match find_byte(u, 47, a + 1) {
        Some(b) => b,
        None => {
            return None;
        },
    };
    match find_byte(u, 47, b + 1) {
        Some(c) => Some(slice_to_vec(slice_subrange(u, b + 1, c))),
        None => Some(slice_to_vec(slice_subrange(u, b + 1, u.len()))),
    }
}

/// Routes a parsed request. Reading and writing the named file is the
/// caller's part; the bytes to send for those outcomes come from
/// `file_found_response`, `not_found_response` and `created_response`.
pub fn create_response(request: &Reqeuest, has_dir: bool) -> (r: RouteResult)
    ensures
        r@ == spec_route(request@, has_dir),
{
    let close = request.wants_close();
    let uri: &[u8] = request.uri.as_slice();
    if bytes_eq(uri, "/".as_bytes()) {
        let bytes = simple_response("HTTP/1.1 200 OK".as_bytes(), close);
        RouteResult::Done { bytes, close }
    } else if starts_with(uri, "/echo/".as_bytes()) {
        let seg: Vec<u8> = match third_component(uri) {
            Some(v) => v,
            None => Vec::new(),
        };
        if request.accepts_gzip() {
            let gz = gzip_compress(seg.as_slice());
            let bytes = body_response(
                "HTTP/1.1 200 OK\r\nContent-Type: text/plain\r\nContent-Encoding: gzip\r\nContent-Length: ".as_bytes(),
                close,
                gz.as_slice(),
            );
            RouteResult::Done { bytes, close }
        } else {
            let bytes = body_response(
                "HTTP/1.1 200 OK\r\nContent-Type: text/plain\r\nContent-Length: ".as_bytes(),
                close,
                seg.as_slice(),
            );
            RouteResult::Done { bytes, close }
        }
    } else if starts_with(uri, "/user-agent".as_bytes()) {
        let bytes = match request.header_value("User-Agent".as_bytes()) {
            Some(v) => body_response(
                "HTTP/1.1 200 OK\r\nContent-Type: text/plain\r\nContent-Length: ".as_bytes(),
                close,
                v.as_slice(),
            ),
            None => {
                let empty: Vec<u8> = Vec::new();
                body_response(
                    "HTTP/1.1 200 OK\r\nContent-Type: text/plain\r\nContent-Length: ".as_bytes(),
                    close,
                    empty.as_slice(),
                )
            },
        };
        RouteResult::Done { bytes, close }
    } else if starts_with(uri, "/files".as_bytes()) {
        if !has_dir {
            let bytes = simple_response("HTTP/1.1 404 Not Found".as_bytes(), close);
            return RouteResult::Done { bytes, close };
        }
        match request.method {
            RequestMethod::GET => match third_component(uri) {
                Some(name) => RouteResult::ReadFile { name, close },
                None => {
                    let bytes = simple_response("HTTP/1.1 404 Not Found".as_bytes(), close);
                    RouteResult::Done { bytes, close }
                },
            },
            RequestMethod::POST => {
                let media_ok: bool = match request.header_value("Content-Type".as_bytes()) {
                    Some(v) => bytes_eq(v.as_slice(), "application/octet-stream".as_bytes()),
                    None => false,
                };
                if media_ok {
                    match third_component(uri) {
                        Some(name) => {
                            let n: usize = match request.header_value(
                                "Content-Length".as_bytes(),
                            ) {
                                Some(v) => parse_usize(v.as_slice()),
                                None => 0,
                            };
                            let body: &[u8] = request.body.as_slice();
                            let contents: Vec<u8> = if n <= body.len() {
                                slice_to_vec(slice_subrange(body, 0, n))
                            } else {
                                slice_to_vec(body)
                            };
                            RouteResult::WriteFile { name, contents, close }
                        },
                        None => {
                            let bytes = simple_response(
                                "HTTP/1.1 404 Not Found".as_bytes(),
                                close,
                            );
                            RouteResult::Done { bytes, close }
                        },
                    }
                } else {
                    let bytes = simple_response(
                        "HTTP/1.1 415 Unsupported Media Type".as_bytes(),
                        close,
                    );
                    RouteResult::Done { bytes, close }
                }
            },
        }
    } else {
        let bytes = simple_response("HTTP/1.1 404 Not Found".as_bytes(), close);
        RouteResult::Done { bytes, close }
    }
}

/// What one read buffer comes to. A buffer that does not parse draws a 400
/// response, and the connection closes after it.
pub open spec fn spec_handle(buf: Seq<u8>, has_dir: bool) -> RouteModel {
    match spec_parse(buf) {
        Ok(m) => spec_route(m, has_dir),
        Err(_) => RouteModel::Done {
            bytes: spec_simple_response(spec_status_bad_request(), false),
            close: true,
        },
    }
}

/// One step of the connection loop: parse the buffer, route the request.
/// The caller sends the bytes, performs any file action, and closes the
/// connection when `close` is set.
pub fn handle_request(buffer: &[u8], has_dir: bool) -> (r: RouteResult)
    ensures
        r@ == spec_handle(buffer@, has_dir),
{
    match Reqeuest::new(buffer) {
        Ok(req) => create_response(&req, has_dir),
        Err(_) => {
            let bytes = simple_response("HTTP/1.1 400 Bad Request".as_bytes(), false);
            RouteResult::Done { bytes, close: true }
        },
    }
}

} // verus!
