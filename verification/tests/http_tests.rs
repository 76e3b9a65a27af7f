use http_server::request::{ParseError, Reqeuest, RequestMethod};
use http_server::response::{created_response, file_found_response, not_found_response};
use http_server::router::{handle_request, RouteResult};
use std::io::{Read, Write};

fn gzip(data: &[u8]) -> Vec<u8> {
    let mut enc = flate2::write::GzEncoder::new(Vec::new(), flate2::Compression::default());
    enc.write_all(data).unwrap();
    enc.finish().unwrap()
}

fn gunzip(data: &[u8]) -> Vec<u8> {
    let mut dec = flate2::read::GzDecoder::new(data);
    let mut out = Vec::new();
    dec.read_to_end(&mut out).unwrap();
    out
}

fn done(r: RouteResult) -> (Vec<u8>, bool) {
    match r {
        RouteResult::Done { bytes, close } => (bytes, close),
        _ => panic!("expected a finished response"),
    }
}

#[test]
fn test_handle_connection_success() {
    let request = "GET / HTTP/1.1\r\nHost: localhost:4221\r\n\r\n";
    let (bytes, close) = done(handle_request(request.as_bytes(), false));
    assert_eq!(bytes, b"HTTP/1.1 200 OK\r\n\r\n".to_vec());
    assert!(!close);
}

#[test]
fn test_handle_connection_404() {
    let request = "GET /abcdefg HTTP/1.1\r\nHost: localhost\r\n\r\n";
    let (bytes, _) = done(handle_request(request.as_bytes(), false));
    assert_eq!(bytes, b"HTTP/1.1 404 Not Found\r\n\r\n".to_vec());
}

#[test]
fn test_handle_connection_echo() {
    let request = "GET /echo/abc HTTP/1.1\r\nHost: localhost\r\n\r\n";
    let (bytes, _) = done(handle_request(request.as_bytes(), false));
    assert_eq!(
        bytes,
        b"HTTP/1.1 200 OK\r\nContent-Type: text/plain\r\nContent-Length: 3\r\n\r\nabc".to_vec()
    );
}

#[test]
fn test_handle_connection_user_agent() {
    let request = "GET /user-agent HTTP/1.1\r\nHost: localhost\r\nUser-Agent: foobar/1.2.3\r\n\r\n";
    let (bytes, _) = done(handle_request(request.as_bytes(), false));
    assert_eq!(
        bytes,
        b"HTTP/1.1 200 OK\r\nContent-Type: text/plain\r\nContent-Length: 12\r\n\r\nfoobar/1.2.3"
            .to_vec()
    );
}

#[test]
fn test_handle_connection_files() {
    let request = "GET /files/foo HTTP/1.1\r\nHost: localhost\r\n\r\n";
    match handle_request(request.as_bytes(), true) {
        RouteResult::ReadFile { name, close } => {
            assert_eq!(name, b"foo".to_vec());
            assert!(!close);
            let response = file_found_response("Hello, World!".as_bytes(), close);
            assert_eq!(
                response,
                b"HTTP/1.1 200 OK\r\nContent-Type: application/octet-stream\r\nContent-Length: 13\r\n\r\nHello, World!"
                    .to_vec()
            );
        }
        _ => panic!("expected a file read"),
    }
}

#[test]
fn test_handle_connection_files_404() {
    let request = "GET /files/non_existant_file HTTP/1.1\r\nHost: localhost\r\n\r\n";
    match handle_request(request.as_bytes(), true) {
        RouteResult::ReadFile { name, close } => {
            assert_eq!(name, b"non_existant_file".to_vec());
            let response = not_found_response(close);
            assert_eq!(response, b"HTTP/1.1 404 Not Found\r\n\r\n".to_vec());
        }
        _ => panic!("expected a file read"),
    }
}

#[test]
fn test_handle_connection_read_body() {
    let request = "POST /files/file_123 HTTP/1.1\r\nHost: localhost\r\nContent-Type: application/octet-stream\r\nContent-Length: 5\r\n\r\n12345";
    match handle_request(request.as_bytes(), true) {
        RouteResult::WriteFile { name, contents, close } => {
            assert_eq!(name, b"file_123".to_vec());
            assert_eq!(contents, vec![49, 50, 51, 52, 53]);
            let response = created_response(close);
            assert_eq!(response, b"HTTP/1.1 201 Created\r\n\r\n".to_vec());
        }
        _ => panic!("expected a file write"),
    }
}

#[test]
fn test_handle_connection_accept_encoding() {
    let request = "GET /echo/abc HTTP/1.1\r\nHost: localhost\r\nAccept-Encoding: gzip\r\n\r\n";
    let (bytes, _) = done(handle_request(request.as_bytes(), false));
    let compressed = gzip("abc".as_bytes());
    let head = format!(
        "HTTP/1.1 200 OK\r\nContent-Type: text/plain\r\nContent-Encoding: gzip\r\nContent-Length: {}\r\n\r\n",
        compressed.len()
    );
    assert!(bytes.starts_with(head.as_bytes()));
    assert!(bytes.ends_with(&compressed));
    assert_eq!(gunzip(&bytes[head.len()..]), b"abc".to_vec());
}

#[test]
fn test_handle_connection_multiple_encoding() {
    let request = "GET /echo/abc HTTP/1.1\r\nHost: localhost\r\nAccept-Encoding: invalid-encoding-1, gzip, invalid-encoding-2\r\n\r\n";
    let (bytes, _) = done(handle_request(request.as_bytes(), false));
    let compressed = gzip("abc".as_bytes());
    let head = format!(
        "HTTP/1.1 200 OK\r\nContent-Type: text/plain\r\nContent-Encoding: gzip\r\nContent-Length: {}\r\n\r\n",
        compressed.len()
    );
    assert!(bytes.starts_with(head.as_bytes()));
    assert!(bytes.ends_with(&compressed));
}

#[test]
fn test_handle_connection_invalid_encoding() {
    let request = "GET /echo/abc HTTP/1.1\r\nHost: localhost\r\nAccept-Encoding: invalid-encoding-1, invalid-encoding-2\r\n\r\n";
    let (bytes, _) = done(handle_request(request.as_bytes(), false));
    assert_eq!(
        bytes,
        b"HTTP/1.1 200 OK\r\nContent-Type: text/plain\r\nContent-Length: 3\r\n\r\nabc".to_vec()
    );
}

#[test]
fn test_handle_connection_persistent() {
    let request = "GET /echo/abc HTTP/1.1\r\nHost: localhost\r\nConnection: close\r\n\r\n";
    let (bytes, close) = done(handle_request(request.as_bytes(), false));
    assert!(close);
    assert_eq!(
        bytes,
        b"HTTP/1.1 200 OK\r\nContent-Type: text/plain\r\nContent-Length: 3\r\nConnection: close\r\n\r\nabc"
            .to_vec()
    );
}

#[test]
fn parse_fills_every_field() {
    let request = "POST /files/x HTTP/1.1\r\nHost: a\r\nHost: b\r\n\r\nbody-bytes";
    let req = Reqeuest::new(request.as_bytes()).unwrap();
    assert_eq!(req.method, RequestMethod::POST);
    assert_eq!(req.uri, b"/files/x".to_vec());
    assert_eq!(req.version, b"HTTP/1.1".to_vec());
    assert_eq!(req.headers.len(), 2);
    assert_eq!(req.headers[0].name, b"Host".to_vec());
    assert_eq!(req.headers[0].value, b"a".to_vec());
    assert_eq!(req.headers[1].value, b"b".to_vec());
    assert_eq!(req.body, b"body-bytes".to_vec());
    assert_eq!(req.header_value(b"Host"), Some(&b"a".to_vec()));
}

#[test]
fn parse_rejects_bad_request_line() {
    let r = Reqeuest::new(b"GET /\r\n\r\n");
    assert_eq!(r.err(), Some(ParseError::MalformedRequestLine));
    let r = Reqeuest::new(b"GET / HTTP/1.1 extra\r\n\r\n");
    assert_eq!(r.err(), Some(ParseError::MalformedRequestLine));
    let r = Reqeuest::new(b"");
    assert_eq!(r.err(), Some(ParseError::MalformedRequestLine));
}

#[test]
fn parse_rejects_unknown_method() {
    let r = Reqeuest::new(b"PUT / HTTP/1.1\r\n\r\n");
    assert_eq!(r.err(), Some(ParseError::UnsupportedMethod));
}

#[test]
fn parse_rejects_header_without_separator() {
    let r = Reqeuest::new(b"GET / HTTP/1.1\r\nBadHeader\r\n\r\n");
    assert_eq!(r.err(), Some(ParseError::MalformedHeader));
}

#[test]
fn malformed_buffer_draws_400_and_closes() {
    let (bytes, close) = done(handle_request(b"PUT / HTTP/1.1\r\n\r\n", false));
    assert_eq!(bytes, b"HTTP/1.1 400 Bad Request\r\n\r\n".to_vec());
    assert!(close);
}

#[test]
fn root_with_close_carries_close_header() {
    let request = "GET / HTTP/1.1\r\nConnection: close\r\n\r\n";
    let (bytes, close) = done(handle_request(request.as_bytes(), false));
    assert!(close);
    assert_eq!(bytes, b"HTTP/1.1 200 OK\r\nConnection: close\r\n\r\n".to_vec());
}

#[test]
fn files_without_directory_is_404() {
    let request = "GET /files/foo HTTP/1.1\r\nHost: localhost\r\n\r\n";
    let (bytes, _) = done(handle_request(request.as_bytes(), false));
    assert_eq!(bytes, b"HTTP/1.1 404 Not Found\r\n\r\n".to_vec());
}

#[test]
fn post_with_wrong_media_type_is_415() {
    let request =
        "POST /files/foo HTTP/1.1\r\nContent-Type: text/plain\r\nContent-Length: 3\r\n\r\nabc";
    let (bytes, _) = done(handle_request(request.as_bytes(), true));
    assert_eq!(bytes, b"HTTP/1.1 415 Unsupported Media Type\r\n\r\n".to_vec());
}

#[test]
fn post_with_unparseable_length_stores_nothing() {
    let request = "POST /files/foo HTTP/1.1\r\nContent-Type: application/octet-stream\r\nContent-Length: xyz\r\n\r\nabc";
    match handle_request(request.as_bytes(), true) {
        RouteResult::WriteFile { contents, .. } => assert_eq!(contents, Vec::<u8>::new()),
        _ => panic!("expected a file write"),
    }
}

#[test]
fn post_length_beyond_body_stores_whole_body() {
    let request = "POST /files/foo HTTP/1.1\r\nContent-Type: application/octet-stream\r\nContent-Length: 99\r\n\r\nabc";
    match handle_request(request.as_bytes(), true) {
        RouteResult::WriteFile { contents, .. } => assert_eq!(contents, b"abc".to_vec()),
        _ => panic!("expected a file write"),
    }
}

#[test]
fn padded_read_buffer_parses_like_exact_bytes() {
    let mut buffer = [0u8; 1024];
    let request = b"POST /files/pad HTTP/1.1\r\nContent-Type: application/octet-stream\r\nContent-Length: 4\r\n\r\nwxyz";
    buffer[..request.len()].copy_from_slice(request);
    match handle_request(&buffer, true) {
        RouteResult::WriteFile { name, contents, close } => {
            assert_eq!(name, b"pad".to_vec());
            assert_eq!(contents, b"wxyz".to_vec());
            assert!(!close);
        }
        _ => panic!("expected a file write"),
    }
}

#[test]
fn gzip_list_needs_exact_token() {
    let request = "GET /echo/abc HTTP/1.1\r\nAccept-Encoding: gzip,deflate\r\n\r\n";
    let (bytes, _) = done(handle_request(request.as_bytes(), false));
    assert_eq!(
        bytes,
        b"HTTP/1.1 200 OK\r\nContent-Type: text/plain\r\nContent-Length: 3\r\n\r\nabc".to_vec()
    );
}

#[test]
fn user_agent_missing_reflects_empty_body() {
    let request = "GET /user-agent HTTP/1.1\r\nHost: localhost\r\n\r\n";
    let (bytes, _) = done(handle_request(request.as_bytes(), false));
    assert_eq!(
        bytes,
        b"HTTP/1.1 200 OK\r\nContent-Type: text/plain\r\nContent-Length: 0\r\n\r\n".to_vec()
    );
}

#[test]
fn echo_segment_stops_at_next_slash() {
    let request = "GET /echo/a/b HTTP/1.1\r\nHost: localhost\r\n\r\n";
    let (bytes, _) = done(handle_request(request.as_bytes(), false));
    assert_eq!(
        bytes,
        b"HTTP/1.1 200 OK\r\nContent-Type: text/plain\r\nContent-Length: 1\r\n\r\na".to_vec()
    );
}

#[test]
fn closing_file_responses_carry_close_header() {
    assert_eq!(
        not_found_response(true),
        b"HTTP/1.1 404 Not Found\r\nConnection: close\r\n\r\n".to_vec()
    );
    assert_eq!(
        created_response(true),
        b"HTTP/1.1 201 Created\r\nConnection: close\r\n\r\n".to_vec()
    );
}
