//! A response as the bytes that go to the client.

use crate::encoding::{lemma_ascii_absent, lemma_encode_concat, lemma_encode_injective};
use crate::response::decimal::{decimal, lemma_decimal, push_decimal};
use crate::response::status_code::StatusCode;
use crate::response::status_line::{StatusLine, StatusLineView};
use crate::tokens::{is_whitespace, is_word};
use vstd::prelude::*;
use vstd::utf8::{encode_utf8, is_ascii_chars_encode_utf8};

verus! {

/// The bytes of a response with the given status line and body: the status
/// line, a line that gives the length of the body in bytes, an empty line, and
/// the body. Lines end in CR LF.
pub open spec fn wire_bytes(status_line: Seq<char>, body: Seq<u8>) -> Seq<u8> {
    encode_utf8(status_line) + encode_utf8("\r\nContent-length: "@) + decimal(body.len())
        + encode_utf8("\r\n\r\n"@) + body
}

/// A serialized response. Its view is the bytes to send.
#[derive(Debug, PartialEq, Eq)]
pub struct Response {
    response: Vec<u8>,
}

impl View for Response {
    type V = Seq<u8>;

    closed spec fn view(&self) -> Seq<u8> {
        self.response@
    }
}

/// Appends `bytes` to `out`.
fn append(out: &mut Vec<u8>, bytes: &[u8])
    ensures
        final(out)@ == old(out)@ + bytes@,
{
    let ghost before = out@;
    out.extend_from_slice(bytes);
    assert(out@ =~= before + bytes@);
}

impl Response {
    /// The response for a status line and a body of text.
    pub fn new(status_line: StatusLine, contents: String) -> (response: Response)
        ensures
            response@ == wire_bytes(status_line@.text(), encode_utf8(contents@)),
    {
        let line = status_line.as_str();
        Response::serialize(line.as_str(), contents.as_str().as_bytes())
    }

    /// The response for a version, a status and a body of any bytes.
    pub fn build(version: &str, status: StatusCode, body: &[u8]) -> (response: Response)
        ensures
            response@ == wire_bytes(
                (StatusLineView { version: version@, status_code: status }).text(),
                body@,
            ),
    {
        let mut bytes: Vec<u8> = Vec::new();
        append(&mut bytes, version.as_bytes());
        append(&mut bytes, " ".as_bytes());
        append(&mut bytes, status.as_str().as_bytes());
        proof {
            lemma_encode_concat(version@, " "@);
            lemma_encode_concat(version@ + " "@, status.text());
            assert(bytes@ =~= encode_utf8(version@ + " "@ + status.text()));
        }
        Response::finish(bytes, body, Ghost(version@ + " "@ + status.text()))
    }

    /// The bytes to send.
    pub fn get_response(&self) -> (bytes: &[u8])
        ensures
            bytes@ == self@,
    {
        self.response.as_slice()
    }

    /// The response for a status line, given as text, and a body.
    fn serialize(status_line: &str, body: &[u8]) -> (response: Response)
        ensures
            response@ == wire_bytes(status_line@, body@),
    {
        let mut bytes: Vec<u8> = Vec::new();
        append(&mut bytes, status_line.as_bytes());
        assert(bytes@ =~= encode_utf8(status_line@));
        Response::finish(bytes, body, Ghost(status_line@))
    }

    /// Completes a response of which `bytes` holds the status line.
    fn finish(bytes: Vec<u8>, body: &[u8], Ghost(status_line): Ghost<Seq<char>>) -> (response:
        Response)
        requires
            bytes@ == encode_utf8(status_line),
        ensures
            response@ == wire_bytes(status_line, body@),
    {
        let mut bytes = bytes;
        append(&mut bytes, "\r\nContent-length: ".as_bytes());
        push_decimal(&mut bytes, body.len());
        append(&mut bytes, "\r\n\r\n".as_bytes());
        append(&mut bytes, body);
        Response { response: bytes }
    }
}

/// How a response is laid out: it starts with the status line and ends with
/// the body, and between them stand the eighteen bytes that end the status
/// line and open the length header, the length of the body in decimal, and
/// the four bytes that end the header and the head. Nothing else is in it.
pub proof fn lemma_wire_layout(status_line: Seq<char>, body: Seq<u8>)
    ensures
        wire_bytes(status_line, body).len() == encode_utf8(status_line).len() + 18 + decimal(
            body.len(),
        ).len() + 4 + body.len(),
        encode_utf8(status_line).is_prefix_of(wire_bytes(status_line, body)),
        body.is_suffix_of(wire_bytes(status_line, body)),
{
    reveal_strlit("\r\nContent-length: ");
    reveal_strlit("\r\n\r\n");
    is_ascii_chars_encode_utf8("\r\nContent-length: "@);
    is_ascii_chars_encode_utf8("\r\n\r\n"@);
    let whole = wire_bytes(status_line, body);
    let line = encode_utf8(status_line);
    assert(line =~= whole.subrange(0, line.len() as int));
    assert(body =~= whole.subrange(whole.len() - body.len(), whole.len() as int));
}

/// Whether `text` is free of carriage returns, as a status line is whose
/// version is a token of a request line.
pub open spec fn is_one_line(text: Seq<char>) -> bool {
    forall|i: int| 0 <= i < text.len() ==> #[trigger] text[i] != '\r'
}

/// The status line that answers a request whose version is a word, as the
/// version of every request that was read is, holds no carriage return.
pub proof fn lemma_status_line_is_one_line(status_line: StatusLineView)
    requires
        is_word(status_line.version),
    ensures
        is_one_line(status_line.text()),
{
    reveal_strlit(" ");
    reveal_strlit("200 OK");
    reveal_strlit("404 Not Found");
    let version = status_line.version;
    let text = status_line.text();
    assert forall|i: int| 0 <= i < text.len() implies #[trigger] text[i] != '\r' by {
        if i < version.len() {
            assert(text[i] == version[i]);
            assert(!is_whitespace(version[i]));
        } else if i > version.len() {
            assert(text[i] == status_line.status_code.text()[i - version.len() - 1]);
        }
    }
}

/// The place of the first carriage return in `head + [13] + tail`, where
/// `head` has none, is the length of `head`: two such sequences that are equal
/// have equal heads.
proof fn lemma_split_at_first_return(
    head1: Seq<u8>,
    tail1: Seq<u8>,
    head2: Seq<u8>,
    tail2: Seq<u8>,
)
    requires
        forall|j: int| 0 <= j < head1.len() ==> #[trigger] head1[j] != 13,
        forall|j: int| 0 <= j < head2.len() ==> #[trigger] head2[j] != 13,
        head1 + seq![13u8] + tail1 == head2 + seq![13u8] + tail2,
    ensures
        head1 == head2,
        tail1 == tail2,
{
    let whole1 = head1 + seq![13u8] + tail1;
    let whole2 = head2 + seq![13u8] + tail2;
    assert(whole1[head1.len() as int] == 13);
    assert(whole2[head2.len() as int] == 13);
    if head1.len() < head2.len() {
        assert(whole2[head1.len() as int] == head2[head1.len() as int]);
    }
    if head2.len() < head1.len() {
        assert(whole1[head2.len() as int] == head1[head2.len() as int]);
    }
    assert(head1 =~= whole1.subrange(0, head1.len() as int));
    assert(head2 =~= whole2.subrange(0, head2.len() as int));
    assert(tail1 =~= whole1.subrange(head1.len() as int + 1, whole1.len() as int));
    assert(tail2 =~= whole2.subrange(head2.len() as int + 1, whole2.len() as int));
}

/// Nothing is lost in the bytes: two responses that are the same bytes have
/// the same status line and the same body, as long as the status lines hold
/// no carriage return.
pub proof fn lemma_wire_bytes_injective(
    status_line1: Seq<char>,
    body1: Seq<u8>,
    status_line2: Seq<char>,
    body2: Seq<u8>,
)
    requires
        is_one_line(status_line1),
        is_one_line(status_line2),
        wire_bytes(status_line1, body1) == wire_bytes(status_line2, body2),
    ensures
        status_line1 == status_line2,
        body1 == body2,
{
    reveal_strlit("\r\nContent-length: ");
    reveal_strlit("\r\n\r\n");
    let opening = "\r\nContent-length: "@;
    let closing = "\r\n\r\n"@;
    is_ascii_chars_encode_utf8(opening);
    is_ascii_chars_encode_utf8(closing);
    let line1 = encode_utf8(status_line1);
    let line2 = encode_utf8(status_line2);
    let length1 = decimal(body1.len());
    let length2 = decimal(body2.len());
    lemma_ascii_absent(status_line1, '\r');
    lemma_ascii_absent(status_line2, '\r');
    lemma_decimal(body1.len());
    lemma_decimal(body2.len());

    // The status line ends at the first carriage return.
    let after_line1 = encode_utf8(opening).drop_first() + length1 + encode_utf8(closing) + body1;
    let after_line2 = encode_utf8(opening).drop_first() + length2 + encode_utf8(closing) + body2;
    assert(wire_bytes(status_line1, body1) =~= line1 + seq![13u8] + after_line1);
    assert(wire_bytes(status_line2, body2) =~= line2 + seq![13u8] + after_line2);
    lemma_split_at_first_return(line1, after_line1, line2, after_line2);
    lemma_encode_injective(status_line1, status_line2);

    // The length ends at the next one.
    let label = encode_utf8(opening).drop_first();
    let after_length1 = encode_utf8(closing).drop_first() + body1;
    let after_length2 = encode_utf8(closing).drop_first() + body2;
    assert(after_line1.subrange(17, after_line1.len() as int) =~= length1 + seq![13u8]
        + after_length1);
    assert(after_line2.subrange(17, after_line2.len() as int) =~= length2 + seq![13u8]
        + after_length2);
    lemma_split_at_first_return(length1, after_length1, length2, after_length2);

    // Equal lengths in decimal are equal lengths, and the bodies are what is left.
    assert(body1.len() == body2.len());
    assert(body1 =~= after_length1.subrange(3, after_length1.len() as int));
    assert(body2 =~= after_length2.subrange(3, after_length2.len() as int));
}

/// The bytes of a response depend on its status line and its body alone: two
/// responses made from the same status line and the same body are the same
/// bytes.
pub proof fn lemma_same_parts_same_bytes(
    first: Response,
    second: Response,
    status_line: Seq<char>,
    body: Seq<u8>,
)
    requires
        first@ == wire_bytes(status_line, body),
        second@ == wire_bytes(status_line, body),
    ensures
        first@ == second@,
{
}

} // verus!
