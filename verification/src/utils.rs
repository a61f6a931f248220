//! Validation of the address that a reference is made from.

use crate::errors::{UrlParseError, UrlParseResult};
use crate::text::{lemma_trim_end_push, same_text, trim_end, trim_end_char};
use crate::uri::{has_scheme, is_https, url_href, Uri};
use vstd::prelude::*;

verus! {

/// The scheme that every reference has.
pub const HTTPS: &'static str = "https";

/// A serialization has one scheme only.
pub proof fn lemma_scheme_unique(href: Seq<char>, a: Seq<char>, b: Seq<char>)
    requires
        has_scheme(href, a),
        has_scheme(href, b),
    ensures
        a == b,
{
    if a.len() < b.len() {
        assert(b[a.len() as int] == href.take(b.len() as int)[a.len() as int]);
        assert(b.contains(':'));
    } else if b.len() < a.len() {
        assert(a[b.len() as int] == href.take(a.len() as int)[b.len() as int]);
        assert(a.contains(':'));
    }
}

/// The ways in which an address is refused.
pub enum AddressFault {
    /// The text is not an absolute URL.
    Unparsable,
    /// The URL has another scheme than `https`.
    NotHttps,
    /// The URL is too long to take what is to be attached to it.
    TooLong,
}

/// What checking an address gives: the serialization of the URL that the
/// text is parsed to once its trailing slashes are taken off, where that
/// URL has the scheme `https`.
pub open spec fn checked_address(raw: Seq<char>) -> Result<Seq<char>, AddressFault> {
    match url_href(trim_end(raw, '/')) {
        None => Err(AddressFault::Unparsable),
        Some(href) => if is_https(href) {
            Ok(href)
        } else {
            Err(AddressFault::NotHttps)
        },
    }
}

/// Whether the error is the one that is returned for the fault: a parse
/// error for a text that is no URL and for a URL that is too long, the
/// scheme error for a URL with another scheme.
pub open spec fn reports(e: UrlParseError, fault: AddressFault) -> bool {
    match fault {
        AddressFault::Unparsable => e is Parser,
        AddressFault::NotHttps => e is NotHttps,
        AddressFault::TooLong => e is Parser,
    }
}

/// An address with a slash at its end is checked as the address without
/// it: both give the same URL, or are refused for the same reason.
pub proof fn lemma_trailing_slash(raw: Seq<char>)
    ensures
        checked_address(raw.push('/')) == checked_address(raw),
{
    lemma_trim_end_push(raw, '/');
}

/// An address that parses to a URL with the scheme `http` is refused for
/// its scheme, whatever its path is.
pub proof fn lemma_http_refused(raw: Seq<char>)
    requires
        url_href(trim_end(raw, '/')) matches Some(href) && has_scheme(
            href,
            seq!['h', 't', 't', 'p'],
        ),
    ensures
        checked_address(raw) == Err::<Seq<char>, AddressFault>(AddressFault::NotHttps),
        forall|e: UrlParseError| reports(e, AddressFault::NotHttps) ==> e is NotHttps,
{
    let href = url_href(trim_end(raw, '/'))->Some_0;
    if is_https(href) {
        lemma_scheme_unique(href, seq!['h', 't', 't', 'p'], seq!['h', 't', 't', 'p', 's']);
        assert(seq!['h', 't', 't', 'p'].len() == 4);
        assert(seq!['h', 't', 't', 'p', 's'].len() == 5);
    }
}

/// Parses an address, trailing slashes aside, and accepts it where its
/// scheme is `https`.
pub fn check_uri(uri: &str) -> (r: UrlParseResult<Uri>)
    ensures
        match r {
            Ok(checked) => checked_address(uri@) == Ok::<Seq<char>, AddressFault>(checked@),
            Err(e) => checked_address(uri@) matches Err(fault) && fault !is TooLong && reports(
                e,
                fault,
            ),
        },
{
    let trimmed = trim_end_char(uri, '/');
    let parsed = match Uri::parse(trimmed) {
        Ok(parsed) => parsed,
        Err(e) => {
            return Err(UrlParseError::Parser(e));
        },
    };
    let scheme = parsed.scheme();
    proof {
        reveal_strlit("https");
        assert(HTTPS@ =~= seq!['h', 't', 't', 'p', 's']);
        if is_https(parsed@) {
            lemma_scheme_unique(parsed@, scheme@, seq!['h', 't', 't', 'p', 's']);
        }
    }
    if !same_text(scheme.as_str(), HTTPS) {
        return Err(UrlParseError::NotHttps);
    }
    Ok(parsed)
}

} // verus!
