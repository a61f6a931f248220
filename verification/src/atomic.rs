//! The atomic update of a counter: a read, then conditional writes until
//! one is accepted or a bound is met.
//!
//! The engine performs no I/O. It hands out the request to send and takes
//! the reply; whoever runs it sends the one and brings back the other.

use crate::constants::{Method, Response, ResponseView};
use crate::errors::{RequestError, RequestResult};
use crate::request::{classify, Reply, ReplyView, Request, RequestView};
use crate::text::{render_i64, signed_decimal};
use crate::Firebase;
use vstd::prelude::*;

verus! {

/// The integer that `serde_json::from_str::<i64>` reads from the text, or
/// `None` where it reports an error.
pub uninterp spec fn json_i64(text: Seq<char>) -> Option<i64>;

/// `serde_json::from_str::<i64>`, its error dropped.
///
/// Trusted: the result is what [`json_i64`] names.
#[verifier::external_body]
fn parse_i64(text: &str) -> (r: Option<i64>)
    ensures
        r == json_i64(text@),
{
    serde_json::from_str::<i64>(text).ok()
}

/// The value to store next, given the value that is stored now.
///
/// The stored value is held against the bounds before the change is
/// applied. With an upper bound, a rising counter that has reached it and a
/// falling counter that is at or below it are refused; with a lower bound, a
/// counter that stands exactly on it is refused. A sum that no 64-bit
/// integer holds is refused as well.
pub open spec fn next_value(
    delta: i64,
    limit_min: Option<i64>,
    limit_max: Option<i64>,
    current: i64,
) -> Result<i64, RequestError> {
    if limit_max matches Some(limit) && ((delta > 0 && current >= limit) || (delta < 0 && current
        <= limit)) {
        Err(RequestError::LimitExceeded)
    } else if limit_min matches Some(limit) && current == limit {
        Err(RequestError::LimitExceeded)
    } else if current + delta < i64::MIN || current + delta > i64::MAX {
        Err(RequestError::LimitExceeded)
    } else {
        Ok((current + delta) as i64)
    }
}

/// The value to store next, given the body that the server sent for the
/// value that is stored now.
pub open spec fn next_value_of(
    delta: i64,
    limit_min: Option<i64>,
    limit_max: Option<i64>,
    data: Seq<char>,
) -> Result<i64, RequestError> {
    match json_i64(data) {
        None => Err(RequestError::NotJSON),
        Some(current) => next_value(delta, limit_min, limit_max, current),
    }
}

/// Holds the stored value against the bounds and applies the change.
pub fn apply_delta(delta: i64, limit_min: Option<i64>, limit_max: Option<i64>, current: i64) -> (r:
    Result<i64, RequestError>)
    ensures
        r == next_value(delta, limit_min, limit_max, current),
{
    if let Some(limit) = limit_max {
        if (delta > 0 && current >= limit) || (delta < 0 && current <= limit) {
            return Err(RequestError::LimitExceeded);
        }
    }
    if let Some(limit) = limit_min {
        if current == limit {
            return Err(RequestError::LimitExceeded);
        }
    }
    match current.checked_add(delta) {
        Some(next) => Ok(next),
        None => Err(RequestError::LimitExceeded),
    }
}

/// The state of one atomic update between two requests.
#[derive(Debug)]
pub struct AtomicUpdate {
    url: String,
    delta: i64,
    limit_min: Option<i64>,
    limit_max: Option<i64>,
    writing: bool,
}

/// The mathematical content of an [`AtomicUpdate`]: the address, the
/// change, the bounds, and whether the request in flight is a conditional
/// write (a read otherwise).
pub struct AtomicUpdateView {
    pub url: Seq<char>,
    pub delta: i64,
    pub limit_min: Option<i64>,
    pub limit_max: Option<i64>,
    pub writing: bool,
}

impl View for AtomicUpdate {
    type V = AtomicUpdateView;

    closed spec fn view(&self) -> AtomicUpdateView {
        AtomicUpdateView {
            url: self.url@,
            delta: self.delta,
            limit_min: self.limit_min,
            limit_max: self.limit_max,
            writing: self.writing,
        }
    }
}

/// What the engine asks for next.
#[derive(Debug)]
pub enum Progress {
    /// Send the request and hand its reply to the state.
    Send(AtomicUpdate, Request),
    /// The update has ended, with the response of the accepted write or
    /// with the error that stopped it.
    Done(RequestResult<Response>),
}

/// The mathematical content of a [`Progress`].
pub enum ProgressView {
    Send(AtomicUpdateView, RequestView),
    Done(Result<ResponseView, RequestError>),
}

impl View for Progress {
    type V = ProgressView;

    open spec fn view(&self) -> ProgressView {
        match self {
            Progress::Send(state, request) => ProgressView::Send(state@, request@),
            Progress::Done(Ok(response)) => ProgressView::Done(Ok(response@)),
            Progress::Done(Err(e)) => ProgressView::Done(Err(*e)),
        }
    }
}

/// The read that opens an update: it asks for the entity tag.
pub open spec fn read_request(url: Seq<char>) -> RequestView {
    RequestView { method: Method::GET, url, body: None, request_etag: true, if_match: None }
}

/// The conditional write of `value`: it is accepted only while the stored
/// value still has the entity tag `tag`.
pub open spec fn write_request(url: Seq<char>, value: i64, tag: Seq<char>) -> RequestView {
    RequestView {
        method: Method::PUT,
        url,
        body: Some(signed_decimal(value as int)),
        request_etag: false,
        if_match: Some(tag),
    }
}

/// The request that follows once an entity tag may be known, and the state
/// that waits for its reply: the conditional write of `value` with a tag, a
/// read without one.
pub open spec fn proceed(state: AtomicUpdateView, value: i64, etag: Option<Seq<char>>) -> (
    AtomicUpdateView,
    RequestView,
) {
    match etag {
        Some(tag) => (
            AtomicUpdateView { writing: true, ..state },
            write_request(state.url, value, tag),
        ),
        None => (AtomicUpdateView { writing: false, ..state }, read_request(state.url)),
    }
}

/// How an update starts. With an entity tag in hand `value` is written
/// under it; without one the stored value is read first.
pub open spec fn begun(
    url: Seq<char>,
    value: i64,
    limit_min: Option<i64>,
    limit_max: Option<i64>,
    etag: Option<Seq<char>>,
) -> (AtomicUpdateView, RequestView) {
    proceed(
        AtomicUpdateView { url, delta: value, limit_min, limit_max, writing: false },
        value,
        etag,
    )
}

/// How an update goes on when the reply to its request arrives.
///
/// An error of the request ends it. A write that comes back without an
/// entity tag was accepted, and its response is the result. Every other
/// response carries the value that is stored now: it is held against the
/// bounds, which may end the update, and the sum is written under the
/// entity tag of the response, or the value is read again where the
/// response has none.
pub open spec fn advanced(state: AtomicUpdateView, reply: ReplyView) -> ProgressView {
    let method = if state.writing {
        Method::PUT
    } else {
        Method::GET
    };
    match classify(method, state.writing, reply) {
        Err(e) => ProgressView::Done(Err(e)),
        Ok(response) => if state.writing && response.etag is None {
            ProgressView::Done(Ok(response))
        } else {
            match next_value_of(state.delta, state.limit_min, state.limit_max, response.data) {
                Err(e) => ProgressView::Done(Err(e)),
                Ok(next) => {
                    let (waiting, request) = proceed(state, next, response.etag);
                    ProgressView::Send(waiting, request)
                },
            }
        },
    }
}

impl Firebase {
    /// Reads the stored value from the body of a response, holds it against
    /// the bounds and applies the change to it.
    pub fn check_current_before_update(
        value: i64,
        limit_min: Option<i64>,
        limit_max: Option<i64>,
        data: &str,
    ) -> (r: Result<i64, RequestError>)
        ensures
            r == next_value_of(value, limit_min, limit_max, data@),
    {
        match parse_i64(data) {
            Some(current) => apply_delta(value, limit_min, limit_max, current),
            None => Err(RequestError::NotJSON),
        }
    }

    /// Starts the atomic update of the counter at this reference by
    /// `value`, within the bounds. The result is the first request to send
    /// and the state that takes its reply.
    pub fn update_atomically_by(
        &self,
        value: i64,
        limit_min: Option<i64>,
        limit_max: Option<i64>,
        etag: Option<String>,
    ) -> (r: (AtomicUpdate, Request))
        ensures
            (r.0@, r.1@) == begun(self@, value, limit_min, limit_max, etag.deep_view()),
    {
        let state = AtomicUpdate {
            url: self.get_uri(),
            delta: value,
            limit_min,
            limit_max,
            writing: false,
        };
        state.proceed(value, etag)
    }
}

impl AtomicUpdate {
    fn proceed(self, value: i64, etag: Option<String>) -> (r: (AtomicUpdate, Request))
        ensures
            (r.0@, r.1@) == proceed(self@, value, etag.deep_view()),
    {
        let url = self.url.clone();
        match etag {
            Some(tag) => {
                let request = Request {
                    method: Method::PUT,
                    url,
                    body: Some(render_i64(value)),
                    request_etag: false,
                    if_match: Some(tag),
                };
                (AtomicUpdate { writing: true, ..self }, request)
            },
            None => {
                let request = Request {
                    method: Method::GET,
                    url,
                    body: None,
                    request_etag: true,
                    if_match: None,
                };
                (AtomicUpdate { writing: false, ..self }, request)
            },
        }
    }

    /// The request that is in flight.
    pub fn pending(&self) -> (r: Method)
        ensures
            r == (if self@.writing {
                Method::PUT
            } else {
                Method::GET
            }),
    {
        if self.writing {
            Method::PUT
        } else {
            Method::GET
        }
    }

    /// Takes the reply to the request in flight and decides how the update
    /// goes on.
    pub fn advance(self, reply: Reply) -> (r: Progress)
        ensures
            r@ == advanced(self@, reply@),
    {
        let response = match reply.classify(self.pending(), self.writing) {
            Ok(response) => response,
            Err(e) => {
                return Progress::Done(Err(e));
            },
        };
        if self.writing && response.etag.is_none() {
            return Progress::Done(Ok(response));
        }
        let next = match Firebase::check_current_before_update(
            self.delta,
            self.limit_min,
            self.limit_max,
            response.data.as_str(),
        ) {
            Ok(next) => next,
            Err(e) => {
                return Progress::Done(Err(e));
            },
        };
        let (waiting, request) = self.proceed(next, response.etag);
        Progress::Send(waiting, request)
    }
}

} // verus!
