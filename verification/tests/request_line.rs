use rustserv::error::ParseError;
use rustserv::method_type::MethodType;
use rustserv::request::request_line::RequestLine;

fn assert_valid_request_line(method: &str, request_target: &str, version: &str) {
    let request_line = format!("{} {} {}", method, request_target, version);
    let result = RequestLine::build(request_line);
    assert!(result.is_ok());
    let req = result.unwrap();
    assert_eq!(req.method, MethodType::from_str(method).unwrap());
    assert_eq!(req.request_target, "/index.html");
    assert_eq!(req.version, "HTTP/1.1");
}

#[test]
fn empty_request_line() {
    let result = RequestLine::build("".to_string());
    assert!(result.is_err());
    assert_eq!(result.unwrap_err().message(), "Too little HTTP request line arguments");
}

#[test]
fn get_request_line() {
    assert_valid_request_line("GET", "/index.html", "HTTP/1.1");
}

#[test]
fn one_request_line_argument() {
    let method = "GET";
    let request_line = format!("{}", method);
    let result = RequestLine::build(request_line);
    assert!(result.is_err());
    assert_eq!(
        result.unwrap_err().message(),
        "No request target in HTTP request line argument: GET"
    );
}

#[test]
fn delete_request_line() {
    assert_valid_request_line("DELETE", "/index.html", "HTTP/1.1");
}

#[test]
fn post_request_line() {
    assert_valid_request_line("POST", "/index.html", "HTTP/1.1");
}

#[test]
fn missing_request_line_argument() {
    let request_line = "GET /index.html".to_string();
    let result = RequestLine::build(request_line);
    assert!(result.is_err());
    assert_eq!(
        result.unwrap_err().message(),
        "HTTP version missing in HTTP request line argument missing: GET /index.html"
    );
}

#[test]
fn extra_request_line_argument() {
    let request_line = "GET /index.html HTTP/1.1 Extra".to_string();
    let result = RequestLine::build(request_line);
    assert!(result.is_err());
    assert_eq!(
        result.unwrap_err().message(),
        "Too many HTTP request line arguments: GET /index.html HTTP/1.1 Extra"
    );
}

#[test]
fn invalid_http_version_formatting() {
    let request_line = "GET /index.html HTT/1.1".to_string();
    let result = RequestLine::build(request_line);
    assert!(result.is_err());
    assert_eq!(
        result.unwrap_err().message(),
        "Invalid HTTP version formatting: GET /index.html HTT/1.1"
    );
}

#[test]
fn invalid_method() {
    let request_line = "INVALID /index.html HTTP/1.1".to_string();
    let result = RequestLine::build(request_line);
    assert!(result.is_err());
    assert_eq!(result.unwrap_err().message(), "Unkown HTTP method");
}

#[test]
fn parsed_request_line_holds_its_three_parts() {
    let parsed = RequestLine::build("GET /index.html HTTP/1.1".to_string());
    assert_eq!(
        parsed,
        Ok(RequestLine {
            method: MethodType::Get,
            request_target: "/index.html".to_string(),
            version: "HTTP/1.1".to_string(),
        })
    );
}

#[test]
fn each_shape_of_request_line_has_its_own_error() {
    let line = |text: &str| RequestLine::build(text.to_string());
    assert_eq!(line(""), Err(ParseError::EmptyRequestLine("".to_string())));
    assert_eq!(line(" \t\r\n"), Err(ParseError::EmptyRequestLine(" \t\r\n".to_string())));
    assert_eq!(line("GET"), Err(ParseError::MissingRequestTarget("GET".to_string())));
    assert_eq!(
        line("GET /index.html"),
        Err(ParseError::MissingVersion("GET /index.html".to_string()))
    );
    assert_eq!(
        line("GET /index.html HTTP/1.1 extra"),
        Err(ParseError::TooManyTokens("GET /index.html HTTP/1.1 extra".to_string()))
    );
    assert_eq!(
        line("GET /index.html HTT/1.1"),
        Err(ParseError::MalformedVersion("GET /index.html HTT/1.1".to_string()))
    );
    assert_eq!(line("get /index.html HTTP/1.1"), Err(ParseError::UnknownMethod));
}

#[test]
fn token_count_is_checked_before_the_tokens() {
    let line = |text: &str| RequestLine::build(text.to_string());
    assert_eq!(line("BAD"), Err(ParseError::MissingRequestTarget("BAD".to_string())));
    assert_eq!(line("BAD / x y"), Err(ParseError::TooManyTokens("BAD / x y".to_string())));
    // An unknown method is reported before a malformed version.
    assert_eq!(line("BAD / nope"), Err(ParseError::UnknownMethod));
}

#[test]
fn runs_of_whitespace_and_a_trailing_line_ending_are_absorbed() {
    let parsed = RequestLine::build("  POST \t /a%20b?x=1   HTTP/1.0\r\n".to_string()).unwrap();
    assert_eq!(parsed.method, MethodType::Post);
    assert_eq!(parsed.request_target, "/a%20b?x=1");
    assert_eq!(parsed.version, "HTTP/1.0");
}

#[test]
fn version_needs_only_the_prefix() {
    let parsed = RequestLine::build("DELETE /x HTTP/".to_string()).unwrap();
    assert_eq!(parsed.version, "HTTP/");
    assert!(RequestLine::build("DELETE /x http/1.1".to_string()).is_err());
    assert!(RequestLine::build("DELETE /x HTTP".to_string()).is_err());
    assert!(RequestLine::build("DELETE /x xHTTP/1.1".to_string()).is_err());
}

#[test]
fn text_beyond_ascii_passes_through_untouched() {
    let parsed = RequestLine::build("GET /caf\u{e9}/\u{1f600} HTTP/1.1".to_string()).unwrap();
    assert_eq!(parsed.request_target, "/caf\u{e9}/\u{1f600}");
    // A no-break space is not ASCII whitespace: it does not separate tokens.
    assert_eq!(
        RequestLine::build("GET\u{a0}/ HTTP/1.1".to_string()),
        Err(ParseError::MissingVersion("GET\u{a0}/ HTTP/1.1".to_string()))
    );
}
