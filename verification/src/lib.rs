//! A client for a JSON document database that is reached over HTTPS.
//!
//! The crate builds and descends references, composes query parameters,
//! decides what each request looks like and what its reply means, drives the
//! conditional-write protocol of an atomic counter, and filters a stream of
//! server-sent events. It performs no I/O itself: a request is a value that a
//! transport sends, and a reply is a value that the transport hands back.

pub mod atomic;
pub mod constants;
pub mod errors;
pub mod event_source;
pub mod params;
pub mod path;
pub mod request;
pub mod sse;
pub mod text;
pub mod uri;
pub mod utils;

pub use constants::{Method, Response};
pub use errors::{RequestError, ServerEventError, UrlParseError};

use crate::constants::AUTH;
use crate::errors::{RequestResult, UrlParseResult};
use crate::params::{Params, ParamsView};
use crate::path::{
    child_path, is_plain_path, lemma_child_path_len, lemma_descend_idempotent, make_child_path,
    stored_segments, DOCUMENT_SUFFIX,
};
use crate::request::{plan_view, planned, unconditional, Request};
use crate::sse::{stream_address_accepted, ServerEvents};
use crate::uri::{
    encoded_bound, has_room, is_https, overflow_error, url_segments, url_with_path,
    url_with_query, Uri,
};
use crate::utils::{check_uri, checked_address, reports, AddressFault};
use vstd::prelude::*;
use vstd::string::*;

verus! {

/// A reference to one location in the database: a validated `https` URL
/// whose last path segment carries the document suffix once it has been
/// descended from.
#[derive(Debug)]
pub struct Firebase {
    uri: Uri,
}

impl View for Firebase {
    type V = Seq<char>;

    /// The serialization of the reference's URL.
    closed spec fn view(&self) -> Seq<char> {
        self.uri@
    }
}

impl Clone for Firebase {
    fn clone(&self) -> (r: Self)
        ensures
            r@ == self@,
    {
        proof {
            use_type_invariant(self);
        }
        Firebase { uri: self.uri.clone() }
    }
}

/// The URL of the child `name` of the reference with the URL `href`: that
/// URL with the child's path, which is made from the segments of its own.
pub open spec fn child_address(href: Seq<char>, name: Seq<char>) -> Seq<char> {
    url_with_path(href, child_path(url_segments(href), name))
}

/// To descend to a name with the document suffix behind it is to descend
/// to the name: both give the same reference.
pub proof fn lemma_at_idempotent(href: Seq<char>, name: Seq<char>)
    ensures
        child_address(href, name + DOCUMENT_SUFFIX@) == child_address(href, name),
{
    lemma_descend_idempotent(url_segments(href), name);
}

/// The query that carries an authentication key.
pub open spec fn auth_query(key: Seq<char>) -> Seq<char> {
    AUTH@ + seq!['='] + key
}

/// What creating a reference with an authentication key gives: the checked
/// address with the one query parameter in place of any query it had.
pub open spec fn authorized_address(raw: Seq<char>, key: Seq<char>) -> Result<
    Seq<char>,
    AddressFault,
> {
    match checked_address(raw) {
        Err(fault) => Err(fault),
        Ok(href) => if has_room(href.len(), encoded_bound(auth_query(key).len())) {
            Ok(url_with_query(href, auth_query(key)))
        } else {
            Err(AddressFault::TooLong)
        },
    }
}

impl Firebase {
    #[verifier::type_invariant]
    spec fn is_secure(self) -> bool {
        is_https(self.uri@)
    }

    /// The reference with the given URL.
    pub(crate) fn from_uri(uri: Uri) -> (r: Self)
        requires
            is_https(uri@),
        ensures
            r@ == uri@,
    {
        Self { uri }
    }

    /// Creates a reference from an address. Trailing slashes are taken off
    /// before the address is parsed; a text that is no absolute URL and a
    /// URL with another scheme than `https` are refused.
    pub fn new(uri: &str) -> (r: UrlParseResult<Self>)
        ensures
            match r {
                Ok(reference) => checked_address(uri@) == Ok::<Seq<char>, AddressFault>(
                    reference@,
                ),
                Err(e) => checked_address(uri@) matches Err(fault) && fault !is TooLong
                    && reports(e, fault),
            },
    {
        match check_uri(uri) {
            Ok(uri) => Ok(Self { uri }),
            Err(err) => Err(err),
        }
    }

    /// Creates a reference as [`Firebase::new`] does and gives it the one
    /// query parameter `auth`, in place of any query that the address had.
    pub fn auth(uri: &str, auth_key: &str) -> (r: UrlParseResult<Self>)
        ensures
            match r {
                Ok(reference) => authorized_address(uri@, auth_key@) == Ok::<
                    Seq<char>,
                    AddressFault,
                >(reference@),
                Err(e) => authorized_address(uri@, auth_key@) matches Err(fault) && reports(
                    e,
                    fault,
                ),
            },
    {
        match check_uri(uri) {
            Ok(mut uri) => {
                proof {
                    reveal_strlit("=");
                }
                let mut query = AUTH.to_owned();
                query.append("=");
                query.append(auth_key);
                assert(query@ == auth_query(auth_key@));
                let length = uri.as_str().unicode_len();
                let added = query.as_str().unicode_len();
                if !fits(length, added) {
                    return Err(UrlParseError::Parser(overflow_error()));
                }
                uri.set_query(query.as_str());
                Ok(Self { uri })
            },
            Err(err) => Err(err),
        }
    }

    /// The parameters for a request to this reference, none yet.
    pub fn with_params(&self) -> (r: Params)
        ensures
            r@ == (ParamsView { uri: self@, pairs: Seq::empty() }),
    {
        proof {
            use_type_invariant(self);
        }
        let uri = self.uri.clone();
        Params::new(uri)
    }

    /// The source of the realtime events of this reference, where the
    /// event-source client accepts its address.
    pub fn with_realtime_events(&self) -> (r: Option<ServerEvents>)
        ensures
            r is Some <==> stream_address_accepted(self@),
            r matches Some(events) ==> events@ == self@,
    {
        ServerEvents::new(self.uri.as_str())
    }

    /// Whether the reference has room for the child `name`: its URL, grown
    /// by the parent's path, the name and the suffix in their encoded form,
    /// stays within the limit of a URL.
    pub open spec fn can_descend(&self, name: Seq<char>) -> bool {
        has_room(self@.len(), encoded_bound(self@.len() + name.len() + 5))
    }

    /// Tests whether the reference has room for the child `name`.
    pub fn has_room_for(&self, name: &str) -> (r: bool)
        ensures
            r == self.can_descend(name@),
    {
        let length = self.uri.as_str().unicode_len();
        let added = name.unicode_len();
        let need: u128 = 4 * (length as u128) + 12 * (length as u128 + added as u128 + 5) + 8;
        need <= 0xFFFF_FFFF
    }

    /// The reference to the child `path` of this one. Where the child's
    /// path is one that a URL stores as it is written, the segments of the
    /// child are those that the path spells.
    pub fn at(&self, path: &str) -> (r: Self)
        requires
            self.can_descend(path@),
        ensures
            r@ == child_address(self@, path@),
            is_plain_path(child_path(url_segments(self@), path@)) ==> url_segments(r@)
                == stored_segments(child_path(url_segments(self@), path@)),
    {
        let uri = self.build_uri(path);
        proof {
            use_type_invariant(self);
        }
        Firebase { uri }
    }

    fn build_uri(&self, path: &str) -> (r: Uri)
        requires
            self.can_descend(path@),
        ensures
            r@ == child_address(self@, path@),
            is_https(r@),
            is_plain_path(child_path(url_segments(self@), path@)) ==> url_segments(r@)
                == stored_segments(child_path(url_segments(self@), path@)),
    {
        proof {
            use_type_invariant(self);
        }
        let segments = self.uri.path_segments();
        let new_path = make_child_path(&segments, path);
        proof {
            lemma_child_path_len(segments.deep_view(), path@);
        }
        let mut uri = self.uri.clone();
        uri.set_path(new_path.as_str());
        uri
    }

    /// The serialization of the reference's URL. Its scheme is `https`,
    /// whatever the reference was made from.
    pub fn get_uri(&self) -> (r: String)
        ensures
            r@ == self@,
            is_https(r@),
    {
        proof {
            use_type_invariant(self);
        }
        self.uri.as_str().to_owned()
    }

    /// Decides what is sent for one operation on this reference. The reply
    /// is classified by [`Request::outcome`].
    pub fn request(
        &self,
        method: Method,
        data: Option<String>,
        include_etag: bool,
        etag: Option<&str>,
    ) -> (r: RequestResult<Request>)
        ensures
            plan_view(r) == planned(
                self@,
                method,
                data.deep_view(),
                include_etag,
                etag.deep_view(),
            ),
    {
        Request::plan(self.get_uri(), method, data, include_etag, etag)
    }

    /// The request that carries `data`, as JSON text, to this reference
    /// with the given verb, without a concurrency option.
    fn write(&self, method: Method, data: String) -> (r: Request)
        requires
            method.writes(),
        ensures
            r@ == unconditional(method, self@, Some(data@)),
    {
        Request {
            method,
            url: self.get_uri(),
            body: Some(data),
            request_etag: false,
            if_match: None,
        }
    }

    /// The request that creates a child with the JSON text `data` below
    /// this reference.
    pub fn set(&self, data: String) -> (r: Request)
        ensures
            r@ == unconditional(Method::POST, self@, Some(data@)),
    {
        self.write(Method::POST, data)
    }

    /// The request that creates a child with the JSON text `data` below
    /// this reference.
    pub fn post_json(&self, data: String) -> (r: Request)
        ensures
            r@ == unconditional(Method::POST, self@, Some(data@)),
    {
        self.write(Method::POST, data)
    }

    /// The request that replaces what is stored at this reference by the
    /// JSON text `data`.
    pub fn put_json(&self, data: String) -> (r: Request)
        ensures
            r@ == unconditional(Method::PUT, self@, Some(data@)),
    {
        self.write(Method::PUT, data)
    }

    /// Descends to the child `key` and gives the request that stores the
    /// JSON text `data` there.
    pub fn set_with_key(&mut self, key: &str, data: String) -> (r: Request)
        requires
            old(self).can_descend(key@),
        ensures
            final(self)@ == child_address(old(self)@, key@),
            r@ == unconditional(Method::PUT, final(self)@, Some(data@)),
    {
        proof {
            use_type_invariant(&*self);
        }
        let uri = self.build_uri(key);
        self.uri = uri;
        self.write(Method::PUT, data)
    }

    /// The request that reads what is stored at this reference. The body of
    /// the response is the stored value as JSON text.
    pub fn get_as_string(&self) -> (r: Request)
        ensures
            r@ == unconditional(Method::GET, self@, None),
    {
        self.read(Method::GET)
    }

    /// The request that reads what is stored at this reference, for a
    /// caller that decodes the body of the response into a value.
    pub fn get(&self) -> (r: Request)
        ensures
            r@ == unconditional(Method::GET, self@, None),
    {
        self.read(Method::GET)
    }

    /// The request that removes what is stored at this reference.
    pub fn delete(&self) -> (r: Request)
        ensures
            r@ == unconditional(Method::DELETE, self@, None),
    {
        self.read(Method::DELETE)
    }

    /// The request that merges the JSON text `data` into what is stored at
    /// this reference.
    pub fn update(&self, data: String) -> (r: Request)
        ensures
            r@ == unconditional(Method::PATCH, self@, Some(data@)),
    {
        self.write(Method::PATCH, data)
    }

    /// The request without a payload and without a concurrency option.
    fn read(&self, method: Method) -> (r: Request)
        requires
            !method.writes(),
        ensures
            r@ == unconditional(method, self@, None),
    {
        Request { method, url: self.get_uri(), body: None, request_etag: false, if_match: None }
    }
}

/// Whether a URL of `length` characters has room for a text of `added`
/// characters in its encoded form.
fn fits(length: usize, added: usize) -> (r: bool)
    ensures
        r == has_room(length as nat, encoded_bound(added as nat)),
{
    let need: u128 = 4 * (length as u128) + 12 * (added as u128) + 8;
    need <= 0xFFFF_FFFF
}

} // verus!
