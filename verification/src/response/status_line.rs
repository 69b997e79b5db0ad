//! The first line of a response.

use crate::response::status_code::StatusCode;
use vstd::prelude::*;
use vstd::string::StringExecFns;

verus! {

/// A protocol version together with a status.
#[derive(Debug, PartialEq, Eq)]
pub struct StatusLine {
    version: String,
    status_code: StatusCode,
}

/// A `StatusLine` with its version as a character sequence.
pub struct StatusLineView {
    pub version: Seq<char>,
    pub status_code: StatusCode,
}

impl StatusLineView {
    /// The line as it is sent, without its line ending: the version, one
    /// space, and the status text.
    pub open spec fn text(self) -> Seq<char> {
        self.version + " "@ + self.status_code.text()
    }
}

impl View for StatusLine {
    type V = StatusLineView;

    closed spec fn view(&self) -> StatusLineView {
        StatusLineView { version: self.version@, status_code: self.status_code }
    }
}

impl StatusLine {
    /// A status line for `version`, which is copied as it is.
    pub fn new(version: &String, status_code: StatusCode) -> (line: StatusLine)
        ensures
            line@ == (StatusLineView { version: version@, status_code }),
    {
        StatusLine { version: version.clone(), status_code }
    }

    /// The protocol version.
    pub fn version(&self) -> (version: &String)
        ensures
            version@ == self@.version,
    {
        &self.version
    }

    /// The status.
    pub fn status_code(&self) -> (status_code: StatusCode)
        ensures
            status_code == self@.status_code,
    {
        self.status_code
    }

    /// The line as it is sent, without its line ending.
    pub fn as_str(&self) -> (text: String)
        ensures
            text@ == self@.text(),
    {
        self.version.clone().concat(" ").concat(self.status_code.as_str())
    }
}

} // verus!
