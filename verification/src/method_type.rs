//! The request methods that the server accepts.

use crate::encoding::str_eq;
use crate::error::ParseError;
use vstd::prelude::*;

verus! {

/// A request method.
#[derive(Debug, Clone, Copy, PartialEq, Eq, Structural)]
pub enum MethodType {
    Get,
    Post,
    Delete,
}

impl MethodType {
    /// The method as it is written in a request line.
    pub open spec fn text(self) -> Seq<char> {
        match self {
            MethodType::Get => "GET"@,
            MethodType::Post => "POST"@,
            MethodType::Delete => "DELETE"@,
        }
    }

    /// The method that `token` names, if any. The match is exact: case matters.
    pub open spec fn parse(token: Seq<char>) -> Option<MethodType> {
        if token == "GET"@ {
            Some(MethodType::Get)
        } else if token == "POST"@ {
            Some(MethodType::Post)
        } else if token == "DELETE"@ {
            Some(MethodType::Delete)
        } else {
            None
        }
    }

    /// The method as it is written in a request line.
    pub fn as_str(&self) -> (text: &str)
        ensures
            text@ == self.text(),
    {
        match self {
            MethodType::Get => "GET",
            MethodType::Post => "POST",
            MethodType::Delete => "DELETE",
        }
    }

    /// Reads a method from a token of a request line. Succeeds on `GET`,
    /// `POST` and `DELETE`, and fails with `UnknownMethod` on anything else.
    pub fn from_str(method: &str) -> (result: Result<MethodType, ParseError>)
        ensures
            match result {
                Ok(m) => MethodType::parse(method@) == Some(m),
                Err(e) => MethodType::parse(method@) is None && e == ParseError::UnknownMethod,
            },
    {
        if str_eq(method, "GET") {
            Ok(MethodType::Get)
        } else if str_eq(method, "POST") {
            Ok(MethodType::Post)
        } else if str_eq(method, "DELETE") {
            Ok(MethodType::Delete)
        } else {
            Err(ParseError::UnknownMethod)
        }
    }
}

/// The three method texts differ from one another.
pub proof fn lemma_texts_differ()
    ensures
        "GET"@ != "POST"@,
        "GET"@ != "DELETE"@,
        "POST"@ != "DELETE"@,
{
    reveal_strlit("GET");
    reveal_strlit("POST");
    reveal_strlit("DELETE");
    assert("GET"@.len() == 3);
    assert("POST"@.len() == 4);
    assert("DELETE"@.len() == 6);
}

/// Writing a method and reading it back gives the method.
pub proof fn lemma_method_round_trip(m: MethodType)
    ensures
        MethodType::parse(m.text()) == Some(m),
{
    lemma_texts_differ();
}

/// A token is read as a method exactly when it is that method's text.
pub proof fn lemma_parse_is_text(token: Seq<char>, m: MethodType)
    ensures
        MethodType::parse(token) == Some(m) <==> token == m.text(),
{
    lemma_texts_differ();
}

/// A method's text is a single word of upper-case ASCII letters.
pub proof fn lemma_method_text_is_word(m: MethodType)
    ensures
        crate::tokens::is_word(m.text()),
{
    reveal_strlit("GET");
    reveal_strlit("POST");
    reveal_strlit("DELETE");
}

} // verus!
