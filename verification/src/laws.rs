//! Properties of the route table and the response builders, stated and
//! proved once over all requests.

use vstd::prelude::*;
use vstd::string::StringSliceAdditionalSpecFns;
use crate::scan::{spec_starts_with, spec_dec};
use crate::request::{ReqModel, spec_wants_close, spec_accepts_gzip};
use crate::response::{
    spec_simple_response, spec_body_response, spec_close_part, spec_blank,
    spec_status_not_found, spec_octet_prefix, spec_text_prefix, spec_gzip_prefix,
};
use crate::router::{
    RouteModel, spec_route, spec_seg_or_empty, spec_content_length, spec_user_agent,
};
use crate::gzip::gzip_of;

verus! {

/// In any response built around a body, the body stands verbatim at the
/// end: the bytes after the blank line are exactly it.
pub proof fn lemma_body_response_suffix(prefix: Seq<u8>, close: bool, body: Seq<u8>)
    ensures
        spec_body_response(prefix, close, body).len() >= body.len(),
        spec_body_response(prefix, close, body).subrange(
            spec_body_response(prefix, close, body).len() - body.len(),
            spec_body_response(prefix, close, body).len() as int,
        ) == body,
{
    let r = spec_body_response(prefix, close, body);
    assert(r.subrange(r.len() - body.len(), r.len() as int) =~= body);
}

/// A target matching no route draws the 404 response, and that response
/// carries no body: it is the status line, the optional close header and
/// the blank line, nothing after.
pub proof fn lemma_unknown_route_not_found(m: ReqModel, has_dir: bool)
    requires
        m.uri != "/".spec_bytes(),
        !spec_starts_with(m.uri, "/echo/".spec_bytes()),
        !spec_starts_with(m.uri, "/user-agent".spec_bytes()),
        !spec_starts_with(m.uri, "/files".spec_bytes()),
    ensures
        spec_route(m, has_dir) == (RouteModel::Done {
            bytes: spec_status_not_found() + spec_close_part(spec_wants_close(m))
                + spec_blank(),
            close: spec_wants_close(m),
        }),
{
}

/// An `/echo/` request whose `Accept-Encoding` list offers no `gzip` token
/// draws exactly the response of the same target without any negotiation:
/// the compressed form never appears.
pub proof fn lemma_echo_without_gzip_matches_plain(m1: ReqModel, m2: ReqModel, has_dir: bool)
    requires
        spec_starts_with(m1.uri, "/echo/".spec_bytes()),
        m1.uri == m2.uri,
        spec_wants_close(m1) == spec_wants_close(m2),
        !spec_accepts_gzip(m1),
        !spec_accepts_gzip(m2),
    ensures
        spec_route(m1, has_dir) == spec_route(m2, has_dir),
{
}

/// The uncompressed echo response carries the target's segment verbatim as
/// its body, and its `Content-Length` value is the decimal rendering of
/// that body's byte length.
pub proof fn lemma_echo_body_verbatim(m: ReqModel, has_dir: bool)
    requires
        m.uri != "/".spec_bytes(),
        spec_starts_with(m.uri, "/echo/".spec_bytes()),
        !spec_accepts_gzip(m),
    ensures
        spec_route(m, has_dir) == (RouteModel::Done {
            bytes: spec_text_prefix() + spec_dec(spec_seg_or_empty(m.uri).len())
                + spec_close_part(spec_wants_close(m)) + spec_blank() + spec_seg_or_empty(
                m.uri,
            ),
            close: spec_wants_close(m),
        }),
{
}

/// The negotiated echo response announces gzip in its headers and carries
/// exactly the gzip stream of the target's segment as its body, standing
/// verbatim at the end of the bytes.
pub proof fn lemma_echo_gzip_body(m: ReqModel, has_dir: bool)
    requires
        m.uri != "/".spec_bytes(),
        spec_starts_with(m.uri, "/echo/".spec_bytes()),
        spec_accepts_gzip(m),
    ensures
        spec_route(m, has_dir) == (RouteModel::Done {
            bytes: spec_body_response(
                spec_gzip_prefix(),
                spec_wants_close(m),
                gzip_of(spec_seg_or_empty(m.uri)),
            ),
            close: spec_wants_close(m),
        }),
        spec_body_response(
            spec_gzip_prefix(),
            spec_wants_close(m),
            gzip_of(spec_seg_or_empty(m.uri)),
        ).subrange(
            spec_body_response(
                spec_gzip_prefix(),
                spec_wants_close(m),
                gzip_of(spec_seg_or_empty(m.uri)),
            ).len() - gzip_of(spec_seg_or_empty(m.uri)).len(),
            spec_body_response(
                spec_gzip_prefix(),
                spec_wants_close(m),
                gzip_of(spec_seg_or_empty(m.uri)),
            ).len() as int,
        ) == gzip_of(spec_seg_or_empty(m.uri)),
{
    lemma_body_response_suffix(
        spec_gzip_prefix(),
        spec_wants_close(m),
        gzip_of(spec_seg_or_empty(m.uri)),
    );
}

/// `/user-agent` reflects the first `User-Agent` value as the body, empty
/// when the header is absent, with `Content-Length` its byte length.
pub proof fn lemma_user_agent_reflected(m: ReqModel, has_dir: bool)
    requires
        m.uri != "/".spec_bytes(),
        !spec_starts_with(m.uri, "/echo/".spec_bytes()),
        spec_starts_with(m.uri, "/user-agent".spec_bytes()),
    ensures
        spec_route(m, has_dir) == (RouteModel::Done {
            bytes: spec_body_response(
                spec_text_prefix(),
                spec_wants_close(m),
                spec_user_agent(m),
            ),
            close: spec_wants_close(m),
        }),
{
}

/// With no base directory configured, every `/files` request draws the 404
/// response and no file action at all.
pub proof fn lemma_files_without_directory_not_found(m: ReqModel)
    requires
        m.uri != "/".spec_bytes(),
        !spec_starts_with(m.uri, "/echo/".spec_bytes()),
        !spec_starts_with(m.uri, "/user-agent".spec_bytes()),
        spec_starts_with(m.uri, "/files".spec_bytes()),
    ensures
        spec_route(m, false) == (RouteModel::Done {
            bytes: spec_simple_response(spec_status_not_found(), spec_wants_close(m)),
            close: spec_wants_close(m),
        }),
{
}

/// Whatever the route, the close report is the request's `Connection:
/// close` decision: carrying the header closes the connection after the
/// response, not carrying it keeps the connection open.
pub proof fn lemma_close_follows_connection_header(m: ReqModel, has_dir: bool)
    ensures
        match spec_route(m, has_dir) {
            RouteModel::Done { close, .. } => close == spec_wants_close(m),
            RouteModel::ReadFile { close, .. } => close == spec_wants_close(m),
            RouteModel::WriteFile { close, .. } => close == spec_wants_close(m),
        },
{
}

/// `pat` stands in `s` at offset `i`.
pub open spec fn spec_contains_at(s: Seq<u8>, pat: Seq<u8>, i: int) -> bool {
    0 <= i && i + pat.len() <= s.len() && s.subrange(i, i + pat.len() as int) == pat
}

/// Every response built for a closing exchange contains the
/// `Connection: close` header among its header bytes.
pub proof fn lemma_close_header_present(status: Seq<u8>, prefix: Seq<u8>, body: Seq<u8>)
    ensures
        exists|i: int|
            spec_contains_at(
                spec_simple_response(status, true),
                "\r\nConnection: close".spec_bytes(),
                i,
            ),
        exists|i: int|
            spec_contains_at(
                spec_body_response(prefix, true, body),
                "\r\nConnection: close".spec_bytes(),
                i,
            ),
{
    let cp = "\r\nConnection: close".spec_bytes();
    let r1 = spec_simple_response(status, true);
    let w1 = status.len() as int;
    assert(r1.subrange(w1, w1 + cp.len()) =~= cp);
    assert(spec_contains_at(r1, cp, w1));
    let r2 = spec_body_response(prefix, true, body);
    let w2 = prefix.len() + spec_dec(body.len()).len();
    assert(r2.subrange(w2 as int, w2 as int + cp.len()) =~= cp);
    assert(spec_contains_at(r2, cp, w2 as int));
}

/// What a `/files` POST stores is never more than the request body, and is
/// exactly the first `Content-Length` bytes of it whenever the body holds
/// that many; a later read that yields those bytes draws a response
/// carrying them verbatim.
pub proof fn lemma_post_round_trip(
    m: ReqModel,
    name: Seq<u8>,
    contents: Seq<u8>,
    close: bool,
    close2: bool,
)
    requires
        spec_route(m, true) == (RouteModel::WriteFile { name, contents, close }),
    ensures
        contents.len() <= m.body.len(),
        spec_content_length(m) <= m.body.len() ==> contents == m.body.subrange(
            0,
            spec_content_length(m) as int,
        ),
        spec_content_length(m) > m.body.len() ==> contents == m.body,
        spec_body_response(spec_octet_prefix(), close2, contents).subrange(
            spec_body_response(spec_octet_prefix(), close2, contents).len() - contents.len(),
            spec_body_response(spec_octet_prefix(), close2, contents).len() as int,
        ) == contents,
{
    lemma_body_response_suffix(spec_octet_prefix(), close2, contents);
}

} // verus!
