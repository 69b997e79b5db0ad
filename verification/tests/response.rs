use rustserv::connection_handler::{resource_path, respond, ROOT};
use rustserv::method_type::MethodType;
use rustserv::request::request::Request;
use rustserv::request::request_line::RequestLine;
use rustserv::response::decimal::push_decimal;
use rustserv::response::{Response, StatusCode, StatusLine};

fn request_for(target: &str, version: &str) -> Request {
    Request {
        request_line: RequestLine {
            method: MethodType::Get,
            request_target: target.to_string(),
            version: version.to_string(),
        },
        headers: vec![],
    }
}

fn decimal(n: usize) -> String {
    let mut out = Vec::new();
    push_decimal(&mut out, n);
    String::from_utf8(out).unwrap()
}

#[test]
fn test_status_code_ok() {
    let status = StatusCode::OK;
    assert_eq!(status.as_str(), "200 OK");
}

#[test]
fn test_status_code_not_found() {
    let status = StatusCode::NotFound;
    assert_eq!(status.as_str(), "404 Not Found");
}

#[test]
fn test_status_line_new() {
    let version = "HTTP/1.1".to_string();
    let status_line = StatusLine::new(&version, StatusCode::OK);

    assert_eq!(*status_line.version(), version);
    assert_eq!(status_line.status_code(), StatusCode::OK);
}

#[test]
fn test_status_line_as_str() {
    let version = "HTTP/1.1".to_string();
    let status_code = StatusCode::OK;
    let status_line = StatusLine::new(&version, status_code);

    assert_eq!(status_line.as_str(), "HTTP/1.1 200 OK");
}

#[test]
fn ok_response() {
    let response = Response::new(
        StatusLine::new(&"HTTP/1.1".to_string(), StatusCode::OK),
        "Hello World!".to_string(),
    );
    assert_eq!(
        response.get_response(),
        "HTTP/1.1 200 OK\r\nContent-length: 12\r\n\r\nHello World!".as_bytes()
    );
}

#[test]
fn not_found_reponse() {
    let response = Response::new(
        StatusLine::new(&"HTTP/1.1".to_string(), StatusCode::NotFound),
        "".to_string(),
    );
    assert_eq!(
        response.get_response(),
        "HTTP/1.1 404 Not Found\r\nContent-length: 0\r\n\r\n".as_bytes()
    );
}

#[test]
fn status_line_copies_any_version() {
    let status_line = StatusLine::new(&"HTTP/\u{e9}".to_string(), StatusCode::NotFound);
    assert_eq!(status_line.as_str(), "HTTP/\u{e9} 404 Not Found");
    assert_eq!(StatusLine::new(&String::new(), StatusCode::OK).as_str(), " 200 OK");
}

#[test]
fn length_counts_bytes_not_characters() {
    let response = Response::new(
        StatusLine::new(&"HTTP/1.1".to_string(), StatusCode::OK),
        "h\u{e9}llo \u{1f600}".to_string(),
    );
    assert_eq!(
        response.get_response(),
        "HTTP/1.1 200 OK\r\nContent-length: 11\r\n\r\nh\u{e9}llo \u{1f600}".as_bytes()
    );
}

#[test]
fn body_of_any_bytes_is_sent_as_it_is() {
    let body = [0u8, 159, 146, 150, 255, 13, 10];
    let response = Response::build("HTTP/1.0", StatusCode::OK, &body);
    let mut expected = b"HTTP/1.0 200 OK\r\nContent-length: 7\r\n\r\n".to_vec();
    expected.extend_from_slice(&body);
    assert_eq!(response.get_response(), expected.as_slice());
}

#[test]
fn new_and_build_give_the_same_bytes() {
    let from_text = Response::new(
        StatusLine::new(&"HTTP/1.1".to_string(), StatusCode::NotFound),
        "gone".to_string(),
    );
    let from_bytes = Response::build("HTTP/1.1", StatusCode::NotFound, b"gone");
    assert_eq!(from_text, from_bytes);
}

#[test]
fn same_status_and_body_give_the_same_bytes_every_time() {
    let make = || Response::build("HTTP/1.1", StatusCode::OK, b"Hello World!");
    assert_eq!(make().get_response(), make().get_response());
    assert_eq!(make(), make());
}

#[test]
fn long_body_has_its_length_in_full() {
    let body = vec![b'x'; 12345];
    let response = Response::build("HTTP/1.1", StatusCode::OK, &body);
    let bytes = response.get_response();
    let head = b"HTTP/1.1 200 OK\r\nContent-length: 12345\r\n\r\n";
    assert_eq!(&bytes[..head.len()], head);
    assert_eq!(&bytes[head.len()..], body.as_slice());
}

#[test]
fn decimal_digits() {
    assert_eq!(decimal(0), "0");
    assert_eq!(decimal(7), "7");
    assert_eq!(decimal(10), "10");
    assert_eq!(decimal(12), "12");
    assert_eq!(decimal(909), "909");
    assert_eq!(decimal(1000), "1000");
    assert_eq!(decimal(usize::MAX), usize::MAX.to_string());
}

#[test]
fn decimal_is_appended() {
    let mut out = b"n=".to_vec();
    push_decimal(&mut out, 42);
    push_decimal(&mut out, 0);
    assert_eq!(out, b"n=420");
}

#[test]
fn found_resource_is_served() {
    let response = respond(&request_for("/index.html", "HTTP/1.1"), Some(b"Hello World!".to_vec()));
    assert_eq!(
        response.get_response(),
        "HTTP/1.1 200 OK\r\nContent-length: 12\r\n\r\nHello World!".as_bytes()
    );
}

#[test]
fn missing_resource_is_not_found_with_an_empty_body() {
    let response = respond(&request_for("/nope", "HTTP/1.1"), None);
    assert_eq!(
        response.get_response(),
        "HTTP/1.1 404 Not Found\r\nContent-length: 0\r\n\r\n".as_bytes()
    );
}

#[test]
fn empty_resource_is_still_found() {
    let response = respond(&request_for("/empty", "HTTP/1.0"), Some(vec![]));
    assert_eq!(response.get_response(), "HTTP/1.0 200 OK\r\nContent-length: 0\r\n\r\n".as_bytes());
}

#[test]
fn resource_is_looked_up_under_the_root() {
    assert_eq!(ROOT, "./");
    assert_eq!(resource_path(&request_for("/index.html", "HTTP/1.1")), ".//index.html");
    assert_eq!(resource_path(&request_for("a/../b", "HTTP/1.1")), "./a/../b");
}
