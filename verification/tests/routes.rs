//! Route dispatch scenarios: each entry of the routing table, the
//! parse error classifications, and the file-serving round trip.

use http_server::http::{Method, RequestError};
use http_server::request::{body_length, Action, Config, Request};

fn lines(ls: &[&[u8]]) -> Vec<Vec<u8>> {
    ls.iter().map(|l| l.to_vec()).collect()
}

fn no_dir() -> Config {
    Config { files_dir: None }
}

fn with_dir() -> Config {
    Config {
        files_dir: Some(String::from("/tmp/files")),
    }
}

fn respond_bytes(action: Action) -> Vec<u8> {
    match action {
        Action::Respond(mut r) => r.as_bytes().expect("serialization failed"),
        _ => panic!("expected an immediate response"),
    }
}

#[test]
fn get_root_is_ok() {
    let req = Request::new(b"GET / HTTP/1.1", &lines(&[]), None, no_dir()).unwrap();
    assert_eq!(respond_bytes(req.handle()), b"HTTP/1.1 200 OK\r\n\r\n".to_vec());
}

#[test]
fn echo_returns_the_rest_verbatim() {
    let req = Request::new(b"GET /echo/abc HTTP/1.1", &lines(&[]), None, no_dir()).unwrap();
    assert_eq!(
        respond_bytes(req.handle()),
        b"HTTP/1.1 200 OK\r\nContent-Type: text/plain\r\nContent-Length: 3\r\n\r\nabc".to_vec()
    );
}

#[test]
fn user_agent_echoes_the_header() {
    let req = Request::new(
        b"GET /user-agent HTTP/1.1",
        &lines(&[b"User-Agent: foobar/1.2.3"]),
        None,
        no_dir(),
    )
    .unwrap();
    assert_eq!(
        respond_bytes(req.handle()),
        b"HTTP/1.1 200 OK\r\nContent-Type: text/plain\r\nContent-Length: 12\r\n\r\nfoobar/1.2.3"
            .to_vec()
    );
}

#[test]
fn user_agent_missing_gets_the_fallback_text() {
    let req = Request::new(b"GET /user-agent HTTP/1.1", &lines(&[]), None, no_dir()).unwrap();
    let expected_body = b"User-Agent header is missing";
    let mut expected = format!(
        "HTTP/1.1 200 OK\r\nContent-Type: text/plain\r\nContent-Length: {}\r\n\r\n",
        expected_body.len()
    )
    .into_bytes();
    expected.extend_from_slice(expected_body);
    assert_eq!(respond_bytes(req.handle()), expected);
}

#[test]
fn unknown_path_is_not_found() {
    let req = Request::new(b"GET /nonexistent HTTP/1.1", &lines(&[]), None, no_dir()).unwrap();
    assert_eq!(
        respond_bytes(req.handle()),
        b"HTTP/1.1 404 Not Found\r\n\r\n".to_vec()
    );
}

#[test]
fn post_on_root_is_method_not_allowed() {
    let req = Request::new(b"POST / HTTP/1.1", &lines(&[]), None, no_dir()).unwrap();
    assert_eq!(
        respond_bytes(req.handle()),
        b"HTTP/1.1 405 Method Not Allowed\r\n\r\n".to_vec()
    );
}

#[test]
fn post_on_echo_is_method_not_allowed() {
    let req = Request::new(b"POST /echo/abc HTTP/1.1", &lines(&[]), None, no_dir()).unwrap();
    assert_eq!(
        respond_bytes(req.handle()),
        b"HTTP/1.1 405 Method Not Allowed\r\n\r\n".to_vec()
    );
}

#[test]
fn short_request_line_is_bad_request() {
    let r = Request::new(b"GET /", &lines(&[]), None, no_dir());
    assert!(matches!(r, Err(RequestError::BadRequestError)));
}

#[test]
fn long_request_line_is_bad_request() {
    let r = Request::new(b"GET / HTTP/1.1 extra", &lines(&[]), None, no_dir());
    assert!(matches!(r, Err(RequestError::BadRequestError)));
}

#[test]
fn empty_request_line_is_bad_request() {
    let r = Request::new(b"", &lines(&[]), None, no_dir());
    assert!(matches!(r, Err(RequestError::BadRequestError)));
}

#[test]
fn unknown_method_is_method_not_allowed() {
    let r = Request::new(b"PATCH / HTTP/1.1", &lines(&[]), None, no_dir());
    assert!(matches!(r, Err(RequestError::MethodNotAllowedError)));
}

#[test]
fn method_token_is_case_insensitive() {
    assert_eq!(Method::from(b"get"), Ok(Method::GET));
    assert_eq!(Method::from(b"PoSt"), Ok(Method::POST));
    assert_eq!(Method::from(b"PATCH"), Err(RequestError::MethodNotAllowedError));
    let req = Request::new(b"get / HTTP/1.1", &lines(&[]), None, no_dir()).unwrap();
    assert_eq!(respond_bytes(req.handle()), b"HTTP/1.1 200 OK\r\n\r\n".to_vec());
}

#[test]
fn files_get_without_directory_is_not_found() {
    let req = Request::new(b"GET /files/anything HTTP/1.1", &lines(&[]), None, no_dir()).unwrap();
    assert_eq!(
        respond_bytes(req.handle()),
        b"HTTP/1.1 404 Not Found\r\n\r\n".to_vec()
    );
}

#[test]
fn files_post_without_directory_is_internal_server_error() {
    let req = Request::new(
        b"POST /files/anything HTTP/1.1",
        &lines(&[b"Content-Length: 5"]),
        Some(b"hello".to_vec()),
        no_dir(),
    )
    .unwrap();
    assert_eq!(
        respond_bytes(req.handle()),
        b"HTTP/1.1 500 Internal Server Error\r\n\r\n".to_vec()
    );
}

#[test]
fn files_post_then_get_round_trip() {
    let post = Request::new(
        b"POST /files/note.txt HTTP/1.1",
        &lines(&[b"Content-Length: 5"]),
        Some(b"hello".to_vec()),
        with_dir(),
    )
    .unwrap();
    let stored = match post.handle() {
        Action::WriteFile(name, content) => {
            assert_eq!(name, b"note.txt".to_vec());
            assert_eq!(content, b"hello".to_vec());
            content
        }
        _ => panic!("expected a file write"),
    };
    let mut created = post.file_write_response(true);
    assert_eq!(
        created.as_bytes().unwrap(),
        b"HTTP/1.1 201 Created\r\n\r\n".to_vec()
    );

    let get = Request::new(b"GET /files/note.txt HTTP/1.1", &lines(&[]), None, with_dir()).unwrap();
    match get.handle() {
        Action::ReadFile(name) => assert_eq!(name, b"note.txt".to_vec()),
        _ => panic!("expected a file read"),
    }
    let mut ok = get.file_read_response(Some(stored));
    assert_eq!(
        ok.as_bytes().unwrap(),
        b"HTTP/1.1 200 OK\r\nContent-Type: application/octet-stream\r\nContent-Length: 5\r\n\r\nhello"
            .to_vec()
    );
}

#[test]
fn files_write_failure_is_internal_server_error() {
    let post = Request::new(
        b"POST /files/note.txt HTTP/1.1",
        &lines(&[b"Content-Length: 5"]),
        Some(b"hello".to_vec()),
        with_dir(),
    )
    .unwrap();
    let mut failed = post.file_write_response(false);
    assert_eq!(
        failed.as_bytes().unwrap(),
        b"HTTP/1.1 500 Internal Server Error\r\n\r\n".to_vec()
    );
}

#[test]
fn files_read_failure_is_not_found() {
    let get = Request::new(b"GET /files/gone HTTP/1.1", &lines(&[]), None, with_dir()).unwrap();
    let mut missing = get.file_read_response(None);
    assert_eq!(
        missing.as_bytes().unwrap(),
        b"HTTP/1.1 404 Not Found\r\n\r\n".to_vec()
    );
}

#[test]
fn body_length_reads_the_content_length_header() {
    assert_eq!(body_length(&lines(&[b"Content-Length: 5"])), Ok(Some(5)));
    assert_eq!(body_length(&lines(&[b"Host: here"])), Ok(None));
    assert_eq!(body_length(&lines(&[])), Ok(None));
    assert_eq!(
        body_length(&lines(&[b"Content-Length: abc"])),
        Err(RequestError::FatalError)
    );
    assert_eq!(
        body_length(&lines(&[b"Content-Length: "])),
        Err(RequestError::FatalError)
    );
}

#[test]
fn unreadable_content_length_is_fatal() {
    let r = Request::new(
        b"POST /files/x HTTP/1.1",
        &lines(&[b"Content-Length: five"]),
        None,
        no_dir(),
    );
    assert!(matches!(r, Err(RequestError::FatalError)));
}

#[test]
fn body_not_matching_content_length_is_fatal() {
    let r = Request::new(
        b"POST /files/x HTTP/1.1",
        &lines(&[b"Content-Length: 5"]),
        Some(b"hi".to_vec()),
        no_dir(),
    );
    assert!(matches!(r, Err(RequestError::FatalError)));
    let missing = Request::new(
        b"POST /files/x HTTP/1.1",
        &lines(&[b"Content-Length: 5"]),
        None,
        no_dir(),
    );
    assert!(matches!(missing, Err(RequestError::FatalError)));
}

#[test]
fn duplicate_header_last_wins() {
    let req = Request::new(
        b"GET /user-agent HTTP/1.1",
        &lines(&[b"User-Agent: first", b"User-Agent: second"]),
        None,
        no_dir(),
    )
    .unwrap();
    assert_eq!(
        respond_bytes(req.handle()),
        b"HTTP/1.1 200 OK\r\nContent-Type: text/plain\r\nContent-Length: 6\r\n\r\nsecond".to_vec()
    );
}

#[test]
fn header_line_without_separator_is_skipped() {
    let req = Request::new(
        b"GET /user-agent HTTP/1.1",
        &lines(&[b"garbage-line", b"User-Agent: ok"]),
        None,
        no_dir(),
    )
    .unwrap();
    assert_eq!(
        respond_bytes(req.handle()),
        b"HTTP/1.1 200 OK\r\nContent-Type: text/plain\r\nContent-Length: 2\r\n\r\nok".to_vec()
    );
}
