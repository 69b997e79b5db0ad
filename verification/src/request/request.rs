//! A request: its request line and its header lines.

use crate::error::{ParseError, ParseErrorView};
use crate::request::assembler::{at_end, outcome, step, Assembler, AssemblerView, Progress, Pull,
    PullView, Step};
use crate::request::request_line::{parse_request_line, RequestLine, RequestLineView};
use vstd::prelude::*;

verus! {

/// A request as it was read. The header lines are kept as they came, in their
/// order: they are not split into names and values.
#[derive(Debug, Clone, PartialEq, Eq)]
pub struct Request {
    pub request_line: RequestLine,
    pub headers: Vec<String>,
}

/// A `Request` with its texts as character sequences.
pub struct RequestView {
    pub request_line: RequestLineView,
    pub headers: Seq<Seq<char>>,
}

/// The views of a sequence of strings.
pub open spec fn lines(strings: Seq<String>) -> Seq<Seq<char>> {
    Seq::new(strings.len(), |i: int| strings[i]@)
}

/// The views of a sequence of pulls.
pub open spec fn pulls(source: Seq<Pull>) -> Seq<PullView> {
    Seq::new(source.len(), |i: int| source[i]@)
}

impl View for Request {
    type V = RequestView;

    open spec fn view(&self) -> RequestView {
        RequestView { request_line: self.request_line@, headers: lines(self.headers@) }
    }
}

/// The header block at the head of `rest`: the lines up to the first item
/// that is not a line with something in it.
pub open spec fn header_block(rest: Seq<PullView>) -> Seq<Seq<char>>
    decreases rest.len(),
{
    if rest.len() > 0 && rest[0].is_header() {
        seq![rest[0]->Line_0] + header_block(rest.drop_first())
    } else {
        Seq::empty()
    }
}

/// The request that a source gives which, pulled until it has nothing more,
/// would give the items of `source`: the first item is the request line, and
/// the header block follows it. Nothing after the header block matters.
pub open spec fn assemble(source: Seq<PullView>) -> Result<RequestView, ParseErrorView> {
    if source.len() == 0 {
        Err(ParseErrorView::MissingRequestLine)
    } else {
        match source[0] {
            PullView::Failure(text) => Err(ParseErrorView::TransportError(text)),
            PullView::Line(line) => match parse_request_line(line) {
                Err(e) => Err(e),
                Ok(request_line) => Ok(
                    RequestView { request_line, headers: header_block(source.drop_first()) },
                ),
            },
        }
    }
}

/// The outcome of a reading that starts in `state` and is fed the items of
/// `source` one by one, and then the news that there is nothing more.
pub open spec fn run(state: AssemblerView, source: Seq<PullView>) -> Result<
    RequestView,
    ParseErrorView,
>
    decreases source.len(),
{
    if source.len() == 0 {
        at_end(state)
    } else {
        match step(state, Some(source[0])) {
            Step::Continue(next) => run(next, source.drop_first()),
            Step::Finished(result) => result,
        }
    }
}

/// A reading that has the request line goes on to take the header block of
/// what is left and ends well.
pub proof fn lemma_run_collecting(
    request_line: RequestLineView,
    headers: Seq<Seq<char>>,
    rest: Seq<PullView>,
)
    ensures
        run(AssemblerView::CollectingHeaders { request_line, headers }, rest) == Ok::<
            RequestView,
            ParseErrorView,
        >(RequestView { request_line, headers: headers + header_block(rest) }),
    decreases rest.len(),
{
    if rest.len() > 0 && rest[0].is_header() {
        let line = rest[0]->Line_0;
        lemma_run_collecting(request_line, headers.push(line), rest.drop_first());
        assert(headers.push(line) + header_block(rest.drop_first()) =~= headers + header_block(
            rest,
        ));
    } else {
        assert(headers + header_block(rest) =~= headers);
    }
}

/// Feeding a source item by item from the start gives the request that
/// `assemble` describes.
pub proof fn lemma_run_is_assemble(source: Seq<PullView>)
    ensures
        run(AssemblerView::AwaitingRequestLine, source) == assemble(source),
{
    if source.len() > 0 {
        if let PullView::Line(line) = source[0] {
            if let Ok(request_line) = parse_request_line(line) {
                lemma_run_collecting(request_line, Seq::empty(), source.drop_first());
                assert(Seq::<Seq<char>>::empty() + header_block(source.drop_first())
                    =~= header_block(source.drop_first()));
            }
        }
    }
}

/// The header block is the longest run of lines with something in them at
/// the head of `rest`: every header is such a line, in its place, and what
/// comes right after the block, if anything, is not.
pub proof fn lemma_header_block(rest: Seq<PullView>)
    ensures
        header_block(rest).len() <= rest.len(),
        forall|i: int|
            0 <= i < header_block(rest).len() ==> rest[i] == PullView::Line(
                #[trigger] header_block(rest)[i],
            ) && header_block(rest)[i].len() > 0,
        header_block(rest).len() == rest.len() || !rest[header_block(rest).len() as int]
            .is_header(),
    decreases rest.len(),
{
    if rest.len() > 0 && rest[0].is_header() {
        let tail = rest.drop_first();
        lemma_header_block(tail);
        assert forall|i: int| 0 <= i < header_block(rest).len() implies rest[i] == PullView::Line(
            #[trigger] header_block(rest)[i],
        ) && header_block(rest)[i].len() > 0 by {
            if i > 0 {
                assert(header_block(rest)[i] == header_block(tail)[i - 1]);
                assert(rest[i] == tail[i - 1]);
            }
        }
        if header_block(rest).len() < rest.len() {
            assert(rest[header_block(rest).len() as int] == tail[header_block(tail).len() as int]);
        }
    }
}

impl Request {
    /// Reads a request from what a line source gave, in the order in which it
    /// gave it. What follows the header block is not looked at.
    pub fn build(source: Vec<Pull>) -> (result: Result<Request, ParseError>)
        ensures
            outcome(result) == assemble(pulls(source@)),
    {
        let ghost all = pulls(source@);
        let mut state = Assembler::new();
        proof {
            lemma_run_is_assemble(all);
            assert(all.skip(0) =~= all);
        }
        for pull in it: source
            invariant
                all == pulls(source@),
                run(state@, all.skip(it.index() as int)) == assemble(all),
        {
            proof {
                let left = all.skip(it.index() as int);
                assert(left[0] == pull@);
                assert(left.drop_first() =~= all.skip(it.index() + 1));
            }
            match state.feed(Some(pull)) {
                Progress::NeedLine(next) => {
                    state = next;
                },
                Progress::Done(result) => {
                    return result;
                },
            }
        }
        match state.feed(None) {
            Progress::NeedLine(_) => Err(ParseError::MissingRequestLine),
            Progress::Done(result) => result,
        }
    }
}

} // verus!
