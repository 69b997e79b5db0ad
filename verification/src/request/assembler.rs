//! Reading a request line by line.
//!
//! The lines of a request come from a source that the library does not see:
//! a connection that may stall, fail or end. `Assembler` is the part that
//! decides. Whoever owns the source pulls one item from it, hands the item to
//! `feed`, and pulls again only if `feed` asks for more. That way nothing is
//! read past the empty line that ends the header block.

use crate::error::{ParseError, ParseErrorView};
use crate::request::request::{lines, Request, RequestView};
use crate::request::request_line::{parse_request_line, RequestLine, RequestLineView};
use vstd::prelude::*;

verus! {

/// What one pull on the line source gave: a line without its line ending, or
/// the transport's description of why it could not give one.
#[derive(Debug, Clone, PartialEq, Eq)]
pub enum Pull {
    Line(String),
    Failure(String),
}

/// A `Pull` with its text as a character sequence.
pub enum PullView {
    Line(Seq<char>),
    Failure(Seq<char>),
}

impl View for Pull {
    type V = PullView;

    open spec fn view(&self) -> PullView {
        match self {
            Pull::Line(line) => PullView::Line(line@),
            Pull::Failure(text) => PullView::Failure(text@),
        }
    }
}

impl PullView {
    /// Whether the pull gave a line that belongs to the header block: a line
    /// that is not empty.
    pub open spec fn is_header(self) -> bool {
        self matches PullView::Line(line) && line.len() > 0
    }
}

/// The view of what a source gave on one pull, `None` standing for a source
/// that has nothing more to give.
pub open spec fn pulled(pull: Option<Pull>) -> Option<PullView> {
    match pull {
        Some(p) => Some(p@),
        None => None,
    }
}

/// How far the reading of a request has come.
#[derive(Debug, PartialEq, Eq)]
pub enum Assembler {
    /// Nothing was read yet.
    AwaitingRequestLine,
    /// The request line was read, and the header lines that follow it are
    /// being collected.
    CollectingHeaders { request_line: RequestLine, headers: Vec<String> },
}

/// An `Assembler` with its texts as character sequences.
pub enum AssemblerView {
    AwaitingRequestLine,
    CollectingHeaders { request_line: RequestLineView, headers: Seq<Seq<char>> },
}

impl View for Assembler {
    type V = AssemblerView;

    open spec fn view(&self) -> AssemblerView {
        match self {
            Assembler::AwaitingRequestLine => AssemblerView::AwaitingRequestLine,
            Assembler::CollectingHeaders { request_line, headers } =>
                AssemblerView::CollectingHeaders {
                    request_line: request_line@,
                    headers: lines(headers@),
                },
        }
    }
}

/// What `feed` answers: pull again and come back with the item, or stop, the
/// reading being over with the given outcome.
#[derive(Debug, PartialEq, Eq)]
pub enum Progress {
    NeedLine(Assembler),
    Done(Result<Request, ParseError>),
}

/// A `Progress` with its texts as character sequences.
pub enum Step {
    Continue(AssemblerView),
    Finished(Result<RequestView, ParseErrorView>),
}

/// The view of the outcome of a reading.
pub open spec fn outcome(result: Result<Request, ParseError>) -> Result<
    RequestView,
    ParseErrorView,
> {
    match result {
        Ok(request) => Ok(request@),
        Err(e) => Err(e@),
    }
}

impl View for Progress {
    type V = Step;

    open spec fn view(&self) -> Step {
        match self {
            Progress::NeedLine(next) => Step::Continue(next@),
            Progress::Done(result) => Step::Finished(outcome(*result)),
        }
    }
}

/// The outcome of a reading whose source has nothing more to give: without a
/// request line there is no request, and a header block that was not closed
/// by an empty line is taken as it stands.
pub open spec fn at_end(state: AssemblerView) -> Result<RequestView, ParseErrorView> {
    match state {
        AssemblerView::AwaitingRequestLine => Err(ParseErrorView::MissingRequestLine),
        AssemblerView::CollectingHeaders { request_line, headers } => Ok(
            RequestView { request_line, headers },
        ),
    }
}

/// One move of the reading: the state and what the source gave decide whether
/// to go on, and in which state, or to stop, and with which outcome.
///
/// Before the request line, a failure of the source is reported and a line is
/// parsed as the request line. After it, a line that is not empty is one more
/// header; an empty line ends the block, and so does a failure of the source,
/// which is not reported.
pub open spec fn step(state: AssemblerView, pull: Option<PullView>) -> Step {
    match pull {
        None => Step::Finished(at_end(state)),
        Some(item) => match state {
            AssemblerView::AwaitingRequestLine => match item {
                PullView::Failure(text) => Step::Finished(
                    Err(ParseErrorView::TransportError(text)),
                ),
                PullView::Line(line) => match parse_request_line(line) {
                    Err(e) => Step::Finished(Err(e)),
                    Ok(request_line) => Step::Continue(
                        AssemblerView::CollectingHeaders { request_line, headers: Seq::empty() },
                    ),
                },
            },
            AssemblerView::CollectingHeaders { request_line, headers } => match item {
                PullView::Line(line) if line.len() > 0 => Step::Continue(
                    AssemblerView::CollectingHeaders { request_line, headers: headers.push(line) },
                ),
                _ => Step::Finished(Ok(RequestView { request_line, headers })),
            },
        },
    }
}

impl Assembler {
    /// The state in which nothing was read yet.
    pub fn new() -> (start: Assembler)
        ensures
            start@ == AssemblerView::AwaitingRequestLine,
    {
        Assembler::AwaitingRequestLine
    }

    /// Takes what the source gave on one pull, `None` if it had nothing more
    /// to give, and says how to go on.
    pub fn feed(self, pull: Option<Pull>) -> (progress: Progress)
        ensures
            progress@ == step(self@, pulled(pull)),
    {
        match self {
            Assembler::AwaitingRequestLine => match pull {
                None => Progress::Done(Err(ParseError::MissingRequestLine)),
                Some(Pull::Failure(text)) => Progress::Done(Err(ParseError::TransportError(text))),
                Some(Pull::Line(line)) => match RequestLine::build(line) {
                    Err(e) => Progress::Done(Err(e)),
                    Ok(request_line) => {
                        let headers: Vec<String> = Vec::new();
                        assert(lines(headers@) =~= Seq::<Seq<char>>::empty());
                        Progress::NeedLine(Assembler::CollectingHeaders { request_line, headers })
                    },
                },
            },
            Assembler::CollectingHeaders { request_line, headers } => match pull {
                Some(Pull::Line(line)) => {
                    if line.as_str().is_empty() {
                        Progress::Done(Ok(Request { request_line, headers }))
                    } else {
                        let mut headers = headers;
                        let ghost before = headers@;
                        let ghost text = line@;
                        headers.push(line);
                        assert(lines(headers@) =~= lines(before).push(text));
                        Progress::NeedLine(Assembler::CollectingHeaders { request_line, headers })
                    }
                },
                _ => Progress::Done(Ok(Request { request_line, headers })),
            },
        }
    }
}

} // verus!
