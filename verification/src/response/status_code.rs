//! The outcomes that the server reports.

use vstd::prelude::*;

verus! {

/// The status of a response.
#[derive(Debug, Clone, Copy, PartialEq, Eq, Structural)]
pub enum StatusCode {
    OK,
    NotFound,
}

impl StatusCode {
    /// The code and its reason phrase, as they stand in a status line.
    pub open spec fn text(self) -> Seq<char> {
        match self {
            StatusCode::OK => "200 OK"@,
            StatusCode::NotFound => "404 Not Found"@,
        }
    }

    /// The code and its reason phrase, as they stand in a status line.
    pub fn as_str(&self) -> (text: &str)
        ensures
            text@ == self.text(),
    {
        match self {
            StatusCode::OK => "200 OK",
            StatusCode::NotFound => "404 Not Found",
        }
    }
}

/// The two status texts differ, so a status line names one status only.
pub proof fn lemma_status_texts_differ()
    ensures
        StatusCode::OK.text() != StatusCode::NotFound.text(),
{
    reveal_strlit("200 OK");
    reveal_strlit("404 Not Found");
    assert("200 OK"@.len() == 6);
    assert("404 Not Found"@.len() == 13);
}

} // verus!
