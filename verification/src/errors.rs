//! The errors that the library reports.

use crate::uri::parse_error_text;
use url::ParseError;
use vstd::prelude::*;
use vstd::string::*;

verus! {

pub type UrlParseResult<T> = Result<T, UrlParseError>;

/// Why a text is not the address of a database.
#[derive(Debug)]
pub enum UrlParseError {
    NoPath,
    NotHttps,
    Parser(ParseError),
}

impl UrlParseError {
    /// The message of the error. For a parse error it ends with the words
    /// that the URL parser has for it.
    pub fn to_string(&self) -> (r: String)
        ensures
            self is NoPath ==> r@ == "URL path is missing."@,
            self is NotHttps ==> r@ == "The URL protocol should be https."@,
            self is Parser ==> "Error while parsing the URL: "@.is_prefix_of(r@),
    {
        match self {
            UrlParseError::NoPath => "URL path is missing.".to_owned(),
            UrlParseError::NotHttps => "The URL protocol should be https.".to_owned(),
            UrlParseError::Parser(e) => {
                let mut message = "Error while parsing the URL: ".to_owned();
                let detail = parse_error_text(e);
                message.append(detail.as_str());
                message
            },
        }
    }
}

pub type RequestResult<T> = Result<T, RequestError>;

/// Why a request gave no response.
#[derive(Debug, Clone, Copy, PartialEq, Eq, Structural)]
pub enum RequestError {
    NotJSON,
    NoUTF8,
    NetworkError,
    SerializeError,
    NotFoundOrNullBody,
    LimitExceeded,
}

impl RequestError {
    /// The message of each error.
    pub open spec fn message(self) -> Seq<char> {
        match self {
            RequestError::NotJSON => "Invalid JSON"@,
            RequestError::NoUTF8 => "Utf8 error"@,
            RequestError::NetworkError => "Network error"@,
            RequestError::SerializeError => "Serialize error"@,
            RequestError::NotFoundOrNullBody => "Body is null or record is not found"@,
            RequestError::LimitExceeded => "Limit exceeded"@,
        }
    }

    pub fn to_string(&self) -> (r: String)
        ensures
            r@ == self.message(),
    {
        match self {
            RequestError::NotJSON => "Invalid JSON".to_owned(),
            RequestError::NoUTF8 => "Utf8 error".to_owned(),
            RequestError::NetworkError => "Network error".to_owned(),
            RequestError::SerializeError => "Serialize error".to_owned(),
            RequestError::NotFoundOrNullBody => "Body is null or record is not found".to_owned(),
            RequestError::LimitExceeded => "Limit exceeded".to_owned(),
        }
    }
}

/// Why a stream of server events ended.
#[derive(Debug, Clone, Copy, PartialEq, Eq, Structural)]
pub enum ServerEventError {
    ConnectionError,
}

impl ServerEventError {
    pub open spec fn message(self) -> Seq<char> {
        "Connection error for server events"@
    }

    pub fn to_string(&self) -> (r: String)
        ensures
            r@ == self.message(),
    {
        "Connection error for server events".to_owned()
    }
}

} // verus!
