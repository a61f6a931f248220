//! One request and the meaning of its reply.

use crate::constants::{Method, Response, ResponseView};
use crate::errors::{RequestError, RequestResult};
use crate::text::same_text;
use vstd::prelude::*;

verus! {

/// The status with which the server answers a request that it carried out.
pub const STATUS_OK: u16 = 200;

/// The status with which the server refuses a conditional write whose entity
/// tag no longer matches the stored value.
pub const STATUS_PRECONDITION_FAILED: u16 = 412;

/// The header that asks the server for the entity tag of the stored value.
pub const ETAG_REQUEST_HEADER: &'static str = "X-Firebase-ETag";

/// The value that [`ETAG_REQUEST_HEADER`] is sent with.
pub const ETAG_REQUEST_VALUE: &'static str = "true";

/// The header that makes a write conditional on an entity tag.
pub const IF_MATCH_HEADER: &'static str = "if-match";

/// The body text with which the server says that nothing is stored.
pub const NULL_BODY: &'static str = "null";

/// One outbound call: the verb, the address, the payload as JSON text and
/// the two concurrency options.
#[derive(Debug, Clone, PartialEq, Eq)]
pub struct Request {
    pub method: Method,
    pub url: String,
    pub body: Option<String>,
    pub request_etag: bool,
    pub if_match: Option<String>,
}

/// The mathematical content of a [`Request`].
pub struct RequestView {
    pub method: Method,
    pub url: Seq<char>,
    pub body: Option<Seq<char>>,
    pub request_etag: bool,
    pub if_match: Option<Seq<char>>,
}

impl View for Request {
    type V = RequestView;

    open spec fn view(&self) -> RequestView {
        RequestView {
            method: self.method,
            url: self.url@,
            body: self.body.deep_view(),
            request_etag: self.request_etag,
            if_match: self.if_match.deep_view(),
        }
    }
}

/// What the transport hands back for one request.
#[derive(Debug, Clone, PartialEq, Eq)]
pub enum Reply {
    /// The call did not complete.
    Failed,
    /// The server answered.
    Received { status: u16, etag: Option<String>, body: String },
}

/// The mathematical content of a [`Reply`].
pub enum ReplyView {
    Failed,
    Received { status: u16, etag: Option<Seq<char>>, body: Seq<char> },
}

impl View for Reply {
    type V = ReplyView;

    open spec fn view(&self) -> ReplyView {
        match self {
            Reply::Failed => ReplyView::Failed,
            Reply::Received { status, etag, body } => ReplyView::Received {
                status: *status,
                etag: etag.deep_view(),
                body: body@,
            },
        }
    }
}

/// The view of a result that holds a request.
pub open spec fn plan_view(r: RequestResult<Request>) -> Result<RequestView, RequestError> {
    match r {
        Ok(request) => Ok(request@),
        Err(e) => Err(e),
    }
}

/// What is sent for one operation on the address `url`.
///
/// Create, replace and merge need a payload and are refused without one;
/// read and remove carry none, whatever was handed in.
pub open spec fn planned(
    url: Seq<char>,
    method: Method,
    data: Option<Seq<char>>,
    include_etag: bool,
    etag: Option<Seq<char>>,
) -> Result<RequestView, RequestError> {
    if method.writes() && data is None {
        Err(RequestError::SerializeError)
    } else {
        Ok(
            RequestView {
                method,
                url,
                body: if method.writes() {
                    data
                } else {
                    None
                },
                request_etag: include_etag,
                if_match: etag,
            },
        )
    }
}

/// The request with the given verb and payload that asks for no entity tag
/// and sets no condition.
pub open spec fn unconditional(method: Method, url: Seq<char>, body: Option<Seq<char>>)
    -> RequestView {
    RequestView { method, url, body, request_etag: false, if_match: None }
}

/// The view of a result that holds a response.
pub open spec fn outcome_view(r: RequestResult<Response>) -> Result<ResponseView, RequestError> {
    match r {
        Ok(response) => Ok(response@),
        Err(e) => Err(e),
    }
}

/// What a reply means for a request with the given verb, sent with or
/// without a condition on the entity tag.
///
/// A call that did not complete and an unexpected status are network errors.
/// Status 200 is success: a read whose body is the text `null` found
/// nothing, a removal yields an empty body, every other body is carried as
/// it came. Status 412 is a response too, but only for a request that was
/// conditional: it carries the value that is stored now and its entity tag.
pub open spec fn classify(method: Method, conditional: bool, reply: ReplyView) -> Result<
    ResponseView,
    RequestError,
> {
    match reply {
        ReplyView::Failed => Err(RequestError::NetworkError),
        ReplyView::Received { status, etag, body } => {
            if status == STATUS_OK {
                if method == Method::GET && body == NULL_BODY@ {
                    Err(RequestError::NotFoundOrNullBody)
                } else if method == Method::DELETE {
                    Ok(ResponseView { data: Seq::empty(), etag })
                } else {
                    Ok(ResponseView { data: body, etag })
                }
            } else if status == STATUS_PRECONDITION_FAILED && conditional {
                Ok(ResponseView { data: body, etag })
            } else {
                Err(RequestError::NetworkError)
            }
        },
    }
}

/// A read that the server answers with status 200 and the body `null`
/// found nothing, whatever else the reply holds; it is never a response.
pub proof fn lemma_null_read(conditional: bool, etag: Option<Seq<char>>)
    ensures
        classify(
            Method::GET,
            conditional,
            ReplyView::Received { status: STATUS_OK, etag, body: NULL_BODY@ },
        ) == Err::<ResponseView, RequestError>(RequestError::NotFoundOrNullBody),
{
}

/// The headers of a request, in the order in which they are attached.
pub open spec fn headers_of(request_etag: bool, if_match: Option<Seq<char>>) -> Seq<
    (Seq<char>, Seq<char>),
> {
    let first = if request_etag {
        seq![(ETAG_REQUEST_HEADER@, ETAG_REQUEST_VALUE@)]
    } else {
        Seq::empty()
    };
    match if_match {
        Some(tag) => first.push((IF_MATCH_HEADER@, tag)),
        None => first,
    }
}

impl Request {
    /// Decides what is sent for one operation on the address `url`: the
    /// payload as JSON text, a request for the entity tag where
    /// `include_etag` is set, and the condition on `etag` where one is given.
    pub fn plan(
        url: String,
        method: Method,
        data: Option<String>,
        include_etag: bool,
        etag: Option<&str>,
    ) -> (r: RequestResult<Request>)
        ensures
            plan_view(r) == planned(url@, method, data.deep_view(), include_etag, etag.deep_view()),
    {
        let body = match method {
            Method::GET | Method::DELETE => None,
            Method::POST | Method::PUT | Method::PATCH => {
                if data.is_none() {
                    return Err(RequestError::SerializeError);
                }
                data
            },
        };
        let if_match = match etag {
            Some(tag) => Some(tag.to_owned()),
            None => None,
        };
        Ok(Request { method, url, body, request_etag: include_etag, if_match })
    }

    /// The headers to attach: the one that asks for an entity tag where
    /// `request_etag` is set, then the condition where `if_match` is set.
    pub fn headers(&self) -> (r: Vec<(String, String)>)
        ensures
            r.deep_view() == headers_of(self.request_etag, self.if_match.deep_view()),
    {
        let mut headers: Vec<(String, String)> = Vec::new();
        if self.request_etag {
            headers.push((ETAG_REQUEST_HEADER.to_owned(), ETAG_REQUEST_VALUE.to_owned()));
        }
        match &self.if_match {
            Some(tag) => {
                headers.push((IF_MATCH_HEADER.to_owned(), tag.clone()));
            },
            None => {},
        }
        assert(headers.deep_view() =~= headers_of(self.request_etag, self.if_match.deep_view()));
        headers
    }

    /// Classifies the reply to this request.
    pub fn outcome(&self, reply: Reply) -> (r: RequestResult<Response>)
        ensures
            outcome_view(r) == classify(self.method, self.if_match is Some, reply@),
    {
        reply.classify(self.method, self.if_match.is_some())
    }
}

impl Reply {
    /// Classifies the reply to a request with the given verb, sent with a
    /// condition on the entity tag (`conditional`) or without one.
    pub fn classify(self, method: Method, conditional: bool) -> (r: RequestResult<Response>)
        ensures
            outcome_view(r) == classify(method, conditional, self@),
    {
        match self {
            Reply::Failed => Err(RequestError::NetworkError),
            Reply::Received { status, etag, body } => {
                if status == STATUS_OK {
                    if method == Method::GET && same_text(body.as_str(), NULL_BODY) {
                        Err(RequestError::NotFoundOrNullBody)
                    } else if method == Method::DELETE {
                        Ok(Response { data: String::new(), etag })
                    } else {
                        Ok(Response { data: body, etag })
                    }
                } else if status == STATUS_PRECONDITION_FAILED && conditional {
                    Ok(Response { data: body, etag })
                } else {
                    Err(RequestError::NetworkError)
                }
            },
        }
    }
}

} // verus!
