//! The library's model of a parsed URL.
//!
//! A [`Uri`] holds the serialization of a URL that the `url` crate parsed.
//! Everything that the crate computes (parsing, path segments, setting a
//! path or a query) is reached through the trusted functions of this module;
//! their results are named by the uninterpreted functions below, and the
//! rest of the library is verified against those names.

use crate::path::{is_plain_path, stored_segments};
use url::ParseError;
use url::Url;
use vstd::prelude::*;

verus! {

#[verifier::external_type_specification]
#[verifier::external_body]
pub struct ExParseError(ParseError);

/// The serialization of the URL that `Url::parse` makes of `input`, or
/// `None` where it reports an error.
pub uninterp spec fn url_href(input: Seq<char>) -> Option<Seq<char>>;

/// The path segments (`Url::path_segments`) of the URL whose serialization
/// is `href`, each percent-encoded; empty for a URL that cannot be a base.
pub uninterp spec fn url_segments(href: Seq<char>) -> Seq<Seq<char>>;

/// The serialization of the URL `href` after `Url::set_path` with `path`.
pub uninterp spec fn url_with_path(href: Seq<char>, path: Seq<char>) -> Seq<char>;

/// The serialization of the URL `href` after `Url::set_query` with
/// `Some(query)`.
pub uninterp spec fn url_with_query(href: Seq<char>, query: Seq<char>) -> Seq<char>;

/// The serialization of the URL `href` after the name and value pairs were
/// appended to its query, in the given order, by
/// `Url::query_pairs_mut().extend_pairs(..)`.
pub uninterp spec fn url_with_pairs(href: Seq<char>, pairs: Seq<(Seq<char>, Seq<char>)>) -> Seq<
    char,
>;

/// A text that is the serialization of a URL: parsing it gives it back.
pub open spec fn is_canonical(href: Seq<char>) -> bool {
    url_href(href) == Some(href)
}

/// Whether `scheme` is the scheme of the serialization `href`: the text
/// before its first colon.
pub open spec fn has_scheme(href: Seq<char>, scheme: Seq<char>) -> bool {
    &&& scheme.len() < href.len()
    &&& href.take(scheme.len() as int) == scheme
    &&& href[scheme.len() as int] == ':'
    &&& !scheme.contains(':')
}

/// Whether the serialization `href` has the scheme `https`.
pub open spec fn is_https(href: Seq<char>) -> bool {
    has_scheme(href, seq!['h', 't', 't', 'p', 's'])
}

/// The longest serialization that a URL can have: its offsets are 32 bits
/// wide.
pub open spec fn url_limit() -> nat {
    0xFFFF_FFFF
}

/// An upper bound on the bytes that a text of `len` characters may take
/// once it is percent-encoded: four bytes a character, three characters a
/// byte.
pub open spec fn encoded_bound(len: nat) -> nat {
    12 * len
}

/// Whether a URL of `href_len` characters has room for `added` more bytes:
/// four bytes for each of its characters, what is added, and eight bytes
/// for the delimiters that a setter may write, stay within the limit.
pub open spec fn has_room(href_len: nat, added: nat) -> bool {
    4 * href_len + added + 8 <= url_limit()
}

/// The length of the path that the segments spell: each segment and the
/// slash before it.
pub open spec fn segments_len(segments: Seq<Seq<char>>) -> nat
    decreases segments.len(),
{
    if segments.len() == 0 {
        0
    } else {
        segments_len(segments.drop_last()) + segments.last().len() + 1
    }
}

/// An upper bound on the bytes that one pair adds to a query: its name and
/// its value encoded, the separator and the equals sign.
pub open spec fn pair_weight(key: Seq<char>, value: Seq<char>) -> nat {
    encoded_bound(key.len()) + encoded_bound(value.len()) + 2
}

/// An upper bound on the bytes that the pairs add to a query.
pub open spec fn pairs_weight(pairs: Seq<(Seq<char>, Seq<char>)>) -> nat
    decreases pairs.len(),
{
    if pairs.len() == 0 {
        0
    } else {
        pairs_weight(pairs.drop_last()) + pair_weight(pairs.last().0, pairs.last().1)
    }
}

/// `Url::parse`, with the URL handed out as its serialization.
///
/// Trusted: the result is what [`url_href`] names, and a serialization
/// parses to itself (the URL type holds each of its values to that).
#[verifier::external_body]
fn parse_href(input: &str) -> (r: Result<String, ParseError>)
    ensures
        match r {
            Ok(href) => url_href(input@) == Some(href@) && is_canonical(href@),
            Err(_) => url_href(input@) is None,
        },
{
    match Url::parse(input) {
        Ok(url) => Ok(String::from(url)),
        Err(e) => Err(e),
    }
}

/// `Url::scheme` of the URL with the serialization `href`.
///
/// Trusted: the scheme is the text of the serialization before its first
/// colon.
#[verifier::external_body]
fn scheme_of(href: &str) -> (r: String)
    requires
        is_canonical(href@),
    ensures
        has_scheme(href@, r@),
{
    Url::parse(href).unwrap().scheme().to_string()
}

/// `Url::path_segments` of the URL with the serialization `href`, with no
/// segment where the URL cannot be a base.
///
/// Trusted: the result is what [`url_segments`] names; the segments are cut
/// from the path, which is a part of the serialization, so together with
/// their slashes they are no longer than it.
#[verifier::external_body]
fn segments_of(href: &str) -> (r: Vec<String>)
    requires
        is_canonical(href@),
    ensures
        r.deep_view() == url_segments(href@),
        segments_len(r.deep_view()) <= href@.len(),
{
    match Url::parse(href).unwrap().path_segments() {
        Some(parts) => parts.map(String::from).collect(),
        None => Vec::new(),
    }
}

/// `Url::set_path` on the `https` URL with the serialization `href`.
///
/// Trusted: the result is what [`url_with_path`] names; it is a
/// serialization again, and the scheme is not touched. A path of letters,
/// digits, `_`, `-`, `.` and slashes without a dot segment is stored as it
/// is written, behind one slash, so the segments of the result are those
/// that the path spells.
#[verifier::external_body]
fn with_path(href: &str, path: &str) -> (r: String)
    requires
        is_canonical(href@),
        is_https(href@),
        has_room(href@.len(), encoded_bound(path@.len())),
    ensures
        r@ == url_with_path(href@, path@),
        is_canonical(r@),
        is_https(r@),
        is_plain_path(path@) ==> url_segments(r@) == stored_segments(path@),
{
    let mut url = Url::parse(href).unwrap();
    url.set_path(path);
    String::from(url)
}

/// `Url::set_query` with `Some(query)` on the URL with the serialization
/// `href`.
///
/// Trusted: the result is what [`url_with_query`] names; it is a
/// serialization again, and the scheme is not touched.
#[verifier::external_body]
fn with_query(href: &str, query: &str) -> (r: String)
    requires
        is_canonical(href@),
        has_room(href@.len(), encoded_bound(query@.len())),
    ensures
        r@ == url_with_query(href@, query@),
        is_canonical(r@),
        is_https(href@) ==> is_https(r@),
{
    let mut url = Url::parse(href).unwrap();
    url.set_query(Some(query));
    String::from(url)
}

/// `Url::query_pairs_mut` and `extend_pairs` on the URL with the
/// serialization `href`.
///
/// Trusted: the result is what [`url_with_pairs`] names; it is a
/// serialization again, and the scheme is not touched.
#[verifier::external_body]
fn with_pairs(href: &str, pairs: &Vec<(String, String)>) -> (r: String)
    requires
        is_canonical(href@),
        has_room(href@.len(), pairs_weight(pairs.deep_view())),
    ensures
        r@ == url_with_pairs(href@, pairs.deep_view()),
        is_canonical(r@),
        is_https(href@) ==> is_https(r@),
{
    let mut url = Url::parse(href).unwrap();
    url.query_pairs_mut().extend_pairs(pairs.iter());
    String::from(url)
}

/// The message that the `url` crate gives for one of its parse errors.
///
/// Trusted, and nothing is claimed of the text.
#[verifier::external_body]
pub(crate) fn parse_error_text(e: &ParseError) -> (r: String) {
    e.to_string()
}

/// The error that the URL parser has for a URL beyond its size limit.
///
/// Trusted, and nothing is claimed of the value.
#[verifier::external_body]
pub(crate) fn overflow_error() -> (r: ParseError) {
    ParseError::Overflow
}

/// A parsed URL, held as its serialization.
#[derive(Debug, PartialEq, Eq)]
pub struct Uri {
    href: String,
}

impl View for Uri {
    type V = Seq<char>;

    closed spec fn view(&self) -> Seq<char> {
        self.href@
    }
}

impl Clone for Uri {
    fn clone(&self) -> (r: Self)
        ensures
            r@ == self@,
    {
        proof {
            use_type_invariant(self);
        }
        Uri { href: self.href.clone() }
    }
}

impl Uri {
    #[verifier::type_invariant]
    spec fn is_serialization(self) -> bool {
        is_canonical(self.href@)
    }

    /// Parses an absolute URL.
    pub fn parse(input: &str) -> (r: Result<Uri, ParseError>)
        ensures
            match r {
                Ok(uri) => url_href(input@) == Some(uri@) && is_canonical(uri@),
                Err(_) => url_href(input@) is None,
            },
    {
        match parse_href(input) {
            Ok(href) => Ok(Uri { href }),
            Err(e) => Err(e),
        }
    }

    /// The serialization.
    pub fn as_str(&self) -> (r: &str)
        ensures
            r@ == self@,
            is_canonical(r@),
    {
        proof {
            use_type_invariant(self);
        }
        self.href.as_str()
    }

    /// The scheme: the text before the first colon.
    pub fn scheme(&self) -> (r: String)
        ensures
            has_scheme(self@, r@),
    {
        proof {
            use_type_invariant(self);
        }
        scheme_of(self.href.as_str())
    }

    /// The path segments, each percent-encoded.
    pub fn path_segments(&self) -> (r: Vec<String>)
        ensures
            r.deep_view() == url_segments(self@),
            segments_len(r.deep_view()) <= self@.len(),
    {
        proof {
            use_type_invariant(self);
        }
        segments_of(self.href.as_str())
    }

    /// Replaces the path of an `https` URL.
    pub fn set_path(&mut self, path: &str)
        requires
            is_https(old(self)@),
            has_room(old(self)@.len(), encoded_bound(path@.len())),
        ensures
            final(self)@ == url_with_path(old(self)@, path@),
            is_https(final(self)@),
            is_plain_path(path@) ==> url_segments(final(self)@) == stored_segments(path@),
    {
        proof {
            use_type_invariant(&*self);
        }
        self.href = with_path(self.href.as_str(), path);
    }

    /// Replaces the query.
    pub fn set_query(&mut self, query: &str)
        requires
            has_room(old(self)@.len(), encoded_bound(query@.len())),
        ensures
            final(self)@ == url_with_query(old(self)@, query@),
            is_https(old(self)@) ==> is_https(final(self)@),
    {
        proof {
            use_type_invariant(&*self);
        }
        self.href = with_query(self.href.as_str(), query);
    }

    /// Appends name and value pairs to the query, in the given order.
    pub fn extend_pairs(&mut self, pairs: &Vec<(String, String)>)
        requires
            has_room(old(self)@.len(), pairs_weight(pairs.deep_view())),
        ensures
            final(self)@ == url_with_pairs(old(self)@, pairs.deep_view()),
            is_https(old(self)@) ==> is_https(final(self)@),
    {
        proof {
            use_type_invariant(&*self);
        }
        self.href = with_pairs(self.href.as_str(), pairs);
    }
}

} // verus!
