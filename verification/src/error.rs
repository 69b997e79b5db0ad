//! What can go wrong while a request is read.

use vstd::prelude::*;
use vstd::string::StringExecFns;

verus! {

/// Why a request could not be read. The variants that come from the shape of
/// the request line carry that line as it was received.
#[derive(Debug, Clone, PartialEq, Eq)]
pub enum ParseError {
    /// The method is none of the methods the server accepts.
    UnknownMethod,
    /// The request line holds no token at all.
    EmptyRequestLine(String),
    /// The request line holds more than three tokens.
    TooManyTokens(String),
    /// The request line ends after the method.
    MissingRequestTarget(String),
    /// The request line ends after the request target.
    MissingVersion(String),
    /// The third token does not start with `HTTP/`.
    MalformedVersion(String),
    /// The line source ended before it gave any line.
    MissingRequestLine,
    /// The line source failed; the text is the transport's own description.
    TransportError(String),
}

/// A `ParseError` with its texts as character sequences.
pub enum ParseErrorView {
    UnknownMethod,
    EmptyRequestLine(Seq<char>),
    TooManyTokens(Seq<char>),
    MissingRequestTarget(Seq<char>),
    MissingVersion(Seq<char>),
    MalformedVersion(Seq<char>),
    MissingRequestLine,
    TransportError(Seq<char>),
}

impl View for ParseError {
    type V = ParseErrorView;

    open spec fn view(&self) -> ParseErrorView {
        match self {
            ParseError::UnknownMethod => ParseErrorView::UnknownMethod,
            ParseError::EmptyRequestLine(line) => ParseErrorView::EmptyRequestLine(line@),
            ParseError::TooManyTokens(line) => ParseErrorView::TooManyTokens(line@),
            ParseError::MissingRequestTarget(line) => ParseErrorView::MissingRequestTarget(line@),
            ParseError::MissingVersion(line) => ParseErrorView::MissingVersion(line@),
            ParseError::MalformedVersion(line) => ParseErrorView::MalformedVersion(line@),
            ParseError::MissingRequestLine => ParseErrorView::MissingRequestLine,
            ParseError::TransportError(text) => ParseErrorView::TransportError(text@),
        }
    }
}

impl ParseErrorView {
    /// The text that describes the error to a person.
    pub open spec fn message(self) -> Seq<char> {
        match self {
            ParseErrorView::UnknownMethod => "Unkown HTTP method"@,
            ParseErrorView::EmptyRequestLine(_) => "Too little HTTP request line arguments"@,
            ParseErrorView::TooManyTokens(line) => "Too many HTTP request line arguments: "@
                + line,
            ParseErrorView::MissingRequestTarget(line) =>
                "No request target in HTTP request line argument: "@ + line,
            ParseErrorView::MissingVersion(line) =>
                "HTTP version missing in HTTP request line argument missing: "@ + line,
            ParseErrorView::MalformedVersion(line) => "Invalid HTTP version formatting: "@ + line,
            ParseErrorView::MissingRequestLine => "Request line not found"@,
            ParseErrorView::TransportError(text) => text,
        }
    }
}

impl ParseError {
    /// The text that describes the error to a person.
    pub fn message(&self) -> (text: String)
        ensures
            text@ == self@.message(),
    {
        match self {
            ParseError::UnknownMethod => String::from_str("Unkown HTTP method"),
            ParseError::EmptyRequestLine(_) => String::from_str(
                "Too little HTTP request line arguments",
            ),
            ParseError::TooManyTokens(line) => String::from_str(
                "Too many HTTP request line arguments: ",
            ).concat(line.as_str()),
            ParseError::MissingRequestTarget(line) => String::from_str(
                "No request target in HTTP request line argument: ",
            ).concat(line.as_str()),
            ParseError::MissingVersion(line) => String::from_str(
                "HTTP version missing in HTTP request line argument missing: ",
            ).concat(line.as_str()),
            ParseError::MalformedVersion(line) => String::from_str(
                "Invalid HTTP version formatting: ",
            ).concat(line.as_str()),
            ParseError::MissingRequestLine => String::from_str("Request line not found"),
            ParseError::TransportError(text) => text.clone(),
        }
    }
}

} // verus!
