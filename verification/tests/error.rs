use rustserv::error::ParseError;

#[test]
fn every_error_has_its_message() {
    let line = || "GET  x".to_string();
    assert_eq!(ParseError::UnknownMethod.message(), "Unkown HTTP method");
    assert_eq!(
        ParseError::EmptyRequestLine(line()).message(),
        "Too little HTTP request line arguments"
    );
    assert_eq!(
        ParseError::TooManyTokens(line()).message(),
        "Too many HTTP request line arguments: GET  x"
    );
    assert_eq!(
        ParseError::MissingRequestTarget(line()).message(),
        "No request target in HTTP request line argument: GET  x"
    );
    assert_eq!(
        ParseError::MissingVersion(line()).message(),
        "HTTP version missing in HTTP request line argument missing: GET  x"
    );
    assert_eq!(
        ParseError::MalformedVersion(line()).message(),
        "Invalid HTTP version formatting: GET  x"
    );
    assert_eq!(ParseError::MissingRequestLine.message(), "Request line not found");
    assert_eq!(ParseError::TransportError("broken pipe".to_string()).message(), "broken pipe");
}
