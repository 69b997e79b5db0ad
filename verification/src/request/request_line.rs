//! The first line of a request: method, request target and protocol version.

use crate::encoding::starts_with;
use crate::error::{ParseError, ParseErrorView};
use crate::method_type::{lemma_method_round_trip, lemma_method_text_is_word, MethodType};
use crate::tokens::{
    is_word, lemma_tokens_are_words, lemma_tokens_of_word, lemma_tokens_word_then,
    split_whitespace, texts, tokens,
};
use vstd::prelude::*;

verus! {

/// A request line that was read successfully.
#[derive(Debug, Clone, PartialEq, Eq)]
pub struct RequestLine {
    pub method: MethodType,
    /// The second token, kept as it was written: it is not decoded.
    pub request_target: String,
    /// The third token, which starts with `HTTP/`.
    pub version: String,
}

/// A `RequestLine` with its texts as character sequences.
pub struct RequestLineView {
    pub method: MethodType,
    pub request_target: Seq<char>,
    pub version: Seq<char>,
}

impl View for RequestLine {
    type V = RequestLineView;

    open spec fn view(&self) -> RequestLineView {
        RequestLineView {
            method: self.method,
            request_target: self.request_target@,
            version: self.version@,
        }
    }
}

/// Whether `version` starts with `HTTP/`.
pub open spec fn is_http_version(version: Seq<char>) -> bool {
    "HTTP/"@.is_prefix_of(version)
}

impl RequestLineView {
    /// What holds of every request line that was read from a line: the target
    /// and the version are words, and the version starts with `HTTP/`.
    pub open spec fn well_formed(self) -> bool {
        &&& is_word(self.request_target)
        &&& is_word(self.version)
        &&& is_http_version(self.version)
    }

    /// The request line written out, with one space between its parts.
    pub open spec fn text(self) -> Seq<char> {
        self.method.text() + seq![' '] + self.request_target + seq![' '] + self.version
    }
}

/// What reading `line` as a request line gives. The number of tokens is
/// looked at first, then the method, then the version.
pub open spec fn parse_request_line(line: Seq<char>) -> Result<RequestLineView, ParseErrorView> {
    let parts = tokens(line);
    if parts.len() == 0 {
        Err(ParseErrorView::EmptyRequestLine(line))
    } else if parts.len() > 3 {
        Err(ParseErrorView::TooManyTokens(line))
    } else if parts.len() == 1 {
        Err(ParseErrorView::MissingRequestTarget(line))
    } else if parts.len() == 2 {
        Err(ParseErrorView::MissingVersion(line))
    } else {
        match MethodType::parse(parts[0]) {
            None => Err(ParseErrorView::UnknownMethod),
            Some(method) => if is_http_version(parts[2]) {
                Ok(RequestLineView { method, request_target: parts[1], version: parts[2] })
            } else {
                Err(ParseErrorView::MalformedVersion(line))
            },
        }
    }
}

/// Whatever is read from a line is well formed.
pub proof fn lemma_parsed_is_well_formed(line: Seq<char>)
    ensures
        parse_request_line(line) matches Ok(parsed) ==> parsed.well_formed(),
{
    lemma_tokens_are_words(line);
}

/// A well-formed request line, written out, reads back as itself.
pub proof fn lemma_request_line_round_trip(request_line: RequestLineView)
    requires
        request_line.well_formed(),
    ensures
        parse_request_line(request_line.text()) == Ok::<RequestLineView, ParseErrorView>(
            request_line,
        ),
{
    let method = request_line.method.text();
    let target = request_line.request_target;
    let version = request_line.version;
    lemma_method_text_is_word(request_line.method);
    lemma_method_round_trip(request_line.method);
    lemma_tokens_of_word(version);
    lemma_tokens_word_then(target, ' ', version);
    lemma_tokens_word_then(method, ' ', target + seq![' '] + version);
    assert(request_line.text() =~= method + seq![' '] + (target + seq![' '] + version));
    assert(tokens(request_line.text()) =~= seq![method, target, version]);
}

impl RequestLine {
    /// Reads a request line.
    pub fn build(request_line: String) -> (result: Result<RequestLine, ParseError>)
        ensures
            match result {
                Ok(parsed) => parse_request_line(request_line@) == Ok::<
                    RequestLineView,
                    ParseErrorView,
                >(parsed@) && parsed@.well_formed(),
                Err(e) => parse_request_line(request_line@) == Err::<
                    RequestLineView,
                    ParseErrorView,
                >(e@),
            },
    {
        let parts = split_whitespace(request_line.as_str());
        let count = parts.len();
        proof {
            assert(texts(parts@).len() == count);
            lemma_tokens_are_words(request_line@);
        }
        if count == 0 {
            return Err(ParseError::EmptyRequestLine(request_line));
        }
        if count > 3 {
            return Err(ParseError::TooManyTokens(request_line));
        }
        if count == 1 {
            return Err(ParseError::MissingRequestTarget(request_line));
        }
        if count == 2 {
            return Err(ParseError::MissingVersion(request_line));
        }
        proof {
            assert(texts(parts@)[0] == parts@[0]@);
            assert(texts(parts@)[1] == parts@[1]@);
            assert(texts(parts@)[2] == parts@[2]@);
        }
        let method = match MethodType::from_str(parts[0]) {
            Ok(method) => method,
            Err(e) => {
                return Err(e);
            },
        };
        let request_target = parts[1].to_owned();
        let version = parts[2].to_owned();
        if !starts_with(parts[2], "HTTP/") {
            return Err(ParseError::MalformedVersion(request_line));
        }
        Ok(RequestLine { method, request_target, version })
    }
}

} // verus!
