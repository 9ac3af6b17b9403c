//! The errors that the library reports.

use vstd::prelude::*;
use vstd::string::*;

verus! {

/// Why a command line was refused before any request was made.
#[derive(Debug, Clone, PartialEq, Eq)]
pub enum ParseError {
    /// The URL does not parse, or it names no host.
    InvalidUrl,
    /// A body token is not of the form `key=value` with a key. The error
    /// holds the token.
    InvalidKeyValue(String),
}

impl ParseError {
    /// The error is that of the body token `token`.
    pub open spec fn refuses(self, token: Seq<char>) -> bool {
        self matches ParseError::InvalidKeyValue(held) && held@ == token
    }

    /// What the user is told: for a URL that it is invalid, for a body token
    /// that it failed to parse, with the token.
    pub open spec fn spec_message(self) -> Seq<char> {
        match self {
            ParseError::InvalidUrl => "invalid URL"@,
            ParseError::InvalidKeyValue(token) => "Failed to parse "@ + token@,
        }
    }

    /// A short description for the user.
    pub fn message(&self) -> (text: String)
        ensures
            text@ == self.spec_message(),
    {
        match self {
            ParseError::InvalidUrl => String::from_str("invalid URL"),
            ParseError::InvalidKeyValue(token) => {
                let mut text = String::from_str("Failed to parse ");
                text.append(token.as_str());
                text
            },
        }
    }
}

/// Why a request could not be described.
#[derive(Debug, Clone, Copy, PartialEq, Eq, Structural)]
pub enum RequestError {
    /// There is no JSON text for the body.
    Body,
}

impl RequestError {
    /// A short description for the user.
    pub fn message(&self) -> (text: String)
        ensures
            text@ == "request body cannot be written as JSON"@,
    {
        String::from_str("request body cannot be written as JSON")
    }
}

/// Why a response could not be rendered.
#[derive(Debug, Clone, Copy, PartialEq, Eq, Structural)]
pub enum RenderError {
    /// The content-type header holds a byte that is not visible ASCII.
    ContentTypeNotText,
    /// The content-type header is text, but no media type.
    ContentTypeInvalid,
    /// The syntax definitions know no grammar for the body's kind.
    SyntaxNotFound,
    /// The default themes lack the one that the highlighter uses.
    ThemeNotFound,
}

impl RenderError {
    /// A short description for the user.
    pub fn message(&self) -> (text: String)
        ensures
            text@ == match *self {
                RenderError::ContentTypeNotText => "content type is not text"@,
                RenderError::ContentTypeInvalid => "content type is not a media type"@,
                RenderError::SyntaxNotFound => "no syntax definition for the body"@,
                RenderError::ThemeNotFound => "no colour theme for the body"@,
            },
    {
        match self {
            RenderError::ContentTypeNotText => String::from_str("content type is not text"),
            RenderError::ContentTypeInvalid => String::from_str("content type is not a media type"),
            RenderError::SyntaxNotFound => String::from_str("no syntax definition for the body"),
            RenderError::ThemeNotFound => String::from_str("no colour theme for the body"),
        }
    }
}

} // verus!
