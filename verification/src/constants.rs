//! The query vocabulary, the request verbs and the response record.

use vstd::prelude::*;

verus! {

pub const AUTH: &'static str = "auth";

pub const ORDER_BY: &'static str = "orderBy";

pub const LIMIT_TO_FIRST: &'static str = "limitToFirst";

pub const LIMIT_TO_LAST: &'static str = "limitToLast";

pub const START_AT: &'static str = "startAt";

pub const END_AT: &'static str = "endAt";

pub const EQUAL_TO: &'static str = "equalTo";

pub const SHALLOW: &'static str = "shallow";

pub const FORMAT: &'static str = "format";

pub const EXPORT: &'static str = "export";

/// The verb of a request.
#[derive(Debug, Clone, Copy, PartialEq, Eq, Structural)]
pub enum Method {
    GET,
    POST,
    PUT,
    DELETE,
    PATCH,
}

impl Method {
    /// Whether the verb carries a payload: create, replace and merge do,
    /// read and remove do not.
    pub open spec fn writes(self) -> bool {
        self == Method::POST || self == Method::PUT || self == Method::PATCH
    }
}

/// What one request to the database gave back: the body as text and, where
/// the server sent one, the entity tag of the stored value.
#[derive(Debug, Clone, PartialEq, Eq)]
pub struct Response {
    pub data: String,
    pub etag: Option<String>,
}

/// The mathematical content of a [`Response`].
pub struct ResponseView {
    pub data: Seq<char>,
    pub etag: Option<Seq<char>>,
}

impl View for Response {
    type V = ResponseView;

    open spec fn view(&self) -> ResponseView {
        ResponseView { data: self.data@, etag: self.etag.deep_view() }
    }
}

impl Response {
    /// An empty response: no body text and no entity tag.
    pub fn new() -> (r: Self)
        ensures
            r@ == (ResponseView { data: Seq::<char>::empty(), etag: None }),
    {
        Self { data: String::new(), etag: None }
    }
}

} // verus!
