//! Serialization: byte-exact wire output, content negotiation, and
//! determinism.

use http_server::request::{Action, Config, Request};
use http_server::response::{Encoding, Response};

use std::io::Write;

fn lines(ls: &[&[u8]]) -> Vec<Vec<u8>> {
    ls.iter().map(|l| l.to_vec()).collect()
}

fn no_dir() -> Config {
    Config { files_dir: None }
}

fn respond_bytes(action: Action) -> Vec<u8> {
    match action {
        Action::Respond(mut r) => r.as_bytes().expect("serialization failed"),
        _ => panic!("expected an immediate response"),
    }
}

fn reference_gzip(content: &[u8]) -> Vec<u8> {
    let mut enc =
        flate2::write::GzEncoder::new(Vec::new(), flate2::Compression::default());
    enc.write_all(content).unwrap();
    enc.finish().unwrap()
}

#[test]
fn gzip_negotiated_header_and_length() {
    let req = Request::new(
        b"GET /echo/abcdefgh HTTP/1.1",
        &lines(&[b"Accept-Encoding: gzip"]),
        None,
        no_dir(),
    )
    .unwrap();
    let gz = reference_gzip(b"abcdefgh");
    let mut expected = format!(
        "HTTP/1.1 200 OK\r\nContent-Encoding: gzip\r\nContent-Type: text/plain\r\nContent-Length: {}\r\n\r\n",
        gz.len()
    )
    .into_bytes();
    expected.extend_from_slice(&gz);
    assert_eq!(respond_bytes(req.handle()), expected);
}

#[test]
fn gzip_negotiated_from_encoding_list() {
    let req = Request::new(
        b"GET /echo/xyz HTTP/1.1",
        &lines(&[b"Accept-Encoding: deflate, gzip, br"]),
        None,
        no_dir(),
    )
    .unwrap();
    let gz = reference_gzip(b"xyz");
    let mut expected = format!(
        "HTTP/1.1 200 OK\r\nContent-Encoding: gzip\r\nContent-Type: text/plain\r\nContent-Length: {}\r\n\r\n",
        gz.len()
    )
    .into_bytes();
    expected.extend_from_slice(&gz);
    assert_eq!(respond_bytes(req.handle()), expected);
}

#[test]
fn no_accept_encoding_means_raw_body() {
    let req = Request::new(b"GET /echo/xyz HTTP/1.1", &lines(&[]), None, no_dir()).unwrap();
    assert_eq!(
        respond_bytes(req.handle()),
        b"HTTP/1.1 200 OK\r\nContent-Type: text/plain\r\nContent-Length: 3\r\n\r\nxyz".to_vec()
    );
}

#[test]
fn accept_encoding_without_gzip_means_raw_body() {
    let req = Request::new(
        b"GET /echo/xyz HTTP/1.1",
        &lines(&[b"Accept-Encoding: br, deflate"]),
        None,
        no_dir(),
    )
    .unwrap();
    assert_eq!(
        respond_bytes(req.handle()),
        b"HTTP/1.1 200 OK\r\nContent-Type: text/plain\r\nContent-Length: 3\r\n\r\nxyz".to_vec()
    );
}

#[test]
fn encoding_negotiation_is_substring_based() {
    let gzip_list = b"deflate, gzip".to_vec();
    let bare = b"gzip".to_vec();
    let other = b"br".to_vec();
    assert_eq!(Encoding::from(Some(&gzip_list)), Encoding::Gzip);
    assert_eq!(Encoding::from(Some(&bare)), Encoding::Gzip);
    assert_eq!(Encoding::from(Some(&other)), Encoding::Identity);
    assert_eq!(Encoding::from(None), Encoding::Identity);
}

#[test]
fn serialization_is_deterministic() {
    let make = || {
        let accept = b"gzip".to_vec();
        Response::text(b"determinism".to_vec(), Some(&accept))
    };
    let mut first = make();
    let mut second = make();
    assert_eq!(first.as_bytes().unwrap(), second.as_bytes().unwrap());

    let mut plain_first = Response::binary(b"raw bytes".to_vec(), None);
    let mut plain_second = Response::binary(b"raw bytes".to_vec(), None);
    assert_eq!(plain_first.as_bytes().unwrap(), plain_second.as_bytes().unwrap());
}

#[test]
fn empty_body_still_carries_headers() {
    let mut r = Response::text(Vec::new(), None);
    assert_eq!(
        r.as_bytes().unwrap(),
        b"HTTP/1.1 200 OK\r\nContent-Type: text/plain\r\nContent-Length: 0\r\n\r\n".to_vec()
    );
}
