//! The stream of server-sent events of a reference: which of the incoming
//! items are delivered, and in what form.
//!
//! The transport is not part of the library. Whoever runs the stream hands
//! each incoming item to an [`EventStream`] and acts on what it returns.

use crate::errors::ServerEventError;
use crate::text::same_text;
use eventsource_client::ClientBuilder;
use vstd::prelude::*;

verus! {

/// The type of the events that only keep the connection open.
pub const KEEP_ALIVE: &'static str = "keep-alive";

/// The payload that stands for no payload.
pub const NULL_PAYLOAD: &'static str = "null";

/// Whether `ClientBuilder::for_url` of the event-source client accepts the
/// address.
pub uninterp spec fn stream_address_accepted(url: Seq<char>) -> bool;

/// `ClientBuilder::for_url`, asked only whether it accepts the address.
///
/// Trusted: the result is what [`stream_address_accepted`] names.
#[verifier::external_body]
fn accepts_address(url: &str) -> (r: bool)
    ensures
        r == stream_address_accepted(url@),
{
    ClientBuilder::for_url(url).is_ok()
}

/// One item that the transport delivers.
#[derive(Debug, Clone, PartialEq, Eq)]
pub enum Incoming {
    /// An event with its type and its payload.
    Event { event_type: String, data: String },
    /// A comment of the transport.
    Comment(String),
    /// The transport failed.
    Failure,
}

/// The mathematical content of an [`Incoming`].
pub enum IncomingView {
    Event { event_type: Seq<char>, data: Seq<char> },
    Comment(Seq<char>),
    Failure,
}

impl View for Incoming {
    type V = IncomingView;

    open spec fn view(&self) -> IncomingView {
        match self {
            Incoming::Event { event_type, data } => IncomingView::Event {
                event_type: event_type@,
                data: data@,
            },
            Incoming::Comment(text) => IncomingView::Comment(text@),
            Incoming::Failure => IncomingView::Failure,
        }
    }
}

/// What the consumer of a stream gets for one incoming item.
#[derive(Debug, Clone, PartialEq, Eq)]
pub enum Delivery {
    /// Nothing: the item was dropped.
    Skip,
    /// An event: its type, and its payload where it has one.
    Event(String, Option<String>),
    /// The error that ends the stream.
    Error(ServerEventError),
    /// Nothing: the stream has ended.
    Closed,
}

/// The mathematical content of a [`Delivery`].
pub enum DeliveryView {
    Skip,
    Event(Seq<char>, Option<Seq<char>>),
    Error(ServerEventError),
    Closed,
}

impl View for Delivery {
    type V = DeliveryView;

    open spec fn view(&self) -> DeliveryView {
        match self {
            Delivery::Skip => DeliveryView::Skip,
            Delivery::Event(event_type, data) => DeliveryView::Event(
                event_type@,
                data.deep_view(),
            ),
            Delivery::Error(e) => DeliveryView::Error(*e),
            Delivery::Closed => DeliveryView::Closed,
        }
    }
}

/// The form in which an event is delivered, or `None` where it is dropped.
///
/// A keep-alive event is dropped unless the consumer asked for them; the
/// payload `null` is delivered as no payload.
pub open spec fn surfaced(event_type: Seq<char>, data: Seq<char>, keep_alive_friendly: bool)
    -> Option<(Seq<char>, Option<Seq<char>>)> {
    if event_type == KEEP_ALIVE@ && !keep_alive_friendly {
        None
    } else if data == NULL_PAYLOAD@ {
        Some((event_type, None))
    } else {
        Some((event_type, Some(data)))
    }
}

/// What is delivered for an incoming item, and whether the stream is closed
/// afterwards.
///
/// A closed stream delivers nothing more. A comment is dropped. A failure
/// is delivered as the connection error and closes the stream.
pub open spec fn delivered(keep_alive_friendly: bool, closed: bool, incoming: IncomingView) -> (
    DeliveryView,
    bool,
) {
    if closed {
        (DeliveryView::Closed, true)
    } else {
        match incoming {
            IncomingView::Comment(_) => (DeliveryView::Skip, false),
            IncomingView::Failure => (
                DeliveryView::Error(ServerEventError::ConnectionError),
                true,
            ),
            IncomingView::Event { event_type, data } => match surfaced(
                event_type,
                data,
                keep_alive_friendly,
            ) {
                None => (DeliveryView::Skip, false),
                Some((event_type, payload)) => (DeliveryView::Event(event_type, payload), false),
            },
        }
    }
}

/// On an open stream a keep-alive event is dropped where the consumer did
/// not ask for such events and delivered where it did, and an event with
/// the payload `null` that is delivered comes without a payload.
pub proof fn lemma_filtering(event_type: Seq<char>, data: Seq<char>, keep_alive_friendly: bool)
    ensures
        delivered(false, false, IncomingView::Event { event_type: KEEP_ALIVE@, data }).0
            == DeliveryView::Skip,
        delivered(true, false, IncomingView::Event { event_type: KEEP_ALIVE@, data }).0
            matches DeliveryView::Event(kind, _) && kind == KEEP_ALIVE@,
        surfaced(event_type, NULL_PAYLOAD@, keep_alive_friendly) matches Some((_, payload))
            ==> payload is None,
        delivered(
            keep_alive_friendly,
            false,
            IncomingView::Event { event_type, data: NULL_PAYLOAD@ },
        ).0 matches DeliveryView::Event(_, payload) ==> payload is None,
{
}

/// Decides the form in which an event is delivered, if it is.
pub fn surface(event_type: String, data: String, keep_alive_friendly: bool) -> (r: Option<
    (String, Option<String>),
>)
    ensures
        r.deep_view() == surfaced(event_type@, data@, keep_alive_friendly),
{
    if same_text(event_type.as_str(), KEEP_ALIVE) && !keep_alive_friendly {
        return None;
    }
    if same_text(data.as_str(), NULL_PAYLOAD) {
        return Some((event_type, None));
    }
    Some((event_type, Some(data)))
}

/// The source of the realtime events of one address.
#[derive(Debug)]
pub struct ServerEvents {
    url: String,
}

impl View for ServerEvents {
    type V = Seq<char>;

    /// The address that the events come from.
    closed spec fn view(&self) -> Seq<char> {
        self.url@
    }
}

impl ServerEvents {
    /// The source of the events of `url`, where the event-source client
    /// accepts that address.
    pub fn new(url: &str) -> (r: Option<Self>)
        ensures
            r is Some <==> stream_address_accepted(url@),
            r matches Some(events) ==> events@ == url@,
    {
        if accepts_address(url) {
            Some(ServerEvents { url: url.to_owned() })
        } else {
            None
        }
    }

    /// The address that the events come from.
    pub fn url(&self) -> (r: &str)
        ensures
            r@ == self@,
    {
        self.url.as_str()
    }

    /// The filter of the stream: open, dropping keep-alive events unless
    /// `keep_alive_friendly` is set.
    pub fn stream(self, keep_alive_friendly: bool) -> (r: EventStream)
        ensures
            r@ == (EventStreamView { url: self@, keep_alive_friendly, closed: false }),
    {
        EventStream { url: self.url, keep_alive_friendly, closed: false }
    }
}

/// A stream of events between the transport and its consumer.
#[derive(Debug)]
pub struct EventStream {
    url: String,
    keep_alive_friendly: bool,
    closed: bool,
}

/// The mathematical content of an [`EventStream`].
pub struct EventStreamView {
    pub url: Seq<char>,
    pub keep_alive_friendly: bool,
    pub closed: bool,
}

impl View for EventStream {
    type V = EventStreamView;

    closed spec fn view(&self) -> EventStreamView {
        EventStreamView {
            url: self.url@,
            keep_alive_friendly: self.keep_alive_friendly,
            closed: self.closed,
        }
    }
}

impl EventStream {
    /// The address that the events come from.
    pub fn url(&self) -> (r: &str)
        ensures
            r@ == self@.url,
    {
        self.url.as_str()
    }

    /// Whether the stream has ended.
    pub fn is_closed(&self) -> (r: bool)
        ensures
            r == self@.closed,
    {
        self.closed
    }

    /// Takes one incoming item and decides what the consumer gets for it.
    pub fn accept(&mut self, incoming: Incoming) -> (r: Delivery)
        ensures
            r@ == delivered(old(self)@.keep_alive_friendly, old(self)@.closed, incoming@).0,
            final(self)@ == (EventStreamView {
                closed: delivered(
                    old(self)@.keep_alive_friendly,
                    old(self)@.closed,
                    incoming@,
                ).1,
                ..old(self)@
            }),
    {
        if self.closed {
            return Delivery::Closed;
        }
        match incoming {
            Incoming::Comment(_) => Delivery::Skip,
            Incoming::Failure => {
                self.closed = true;
                Delivery::Error(ServerEventError::ConnectionError)
            },
            Incoming::Event { event_type, data } => {
                match surface(event_type, data, self.keep_alive_friendly) {
                    None => Delivery::Skip,
                    Some((event_type, payload)) => Delivery::Event(event_type, payload),
                }
            },
        }
    }
}

} // verus!
