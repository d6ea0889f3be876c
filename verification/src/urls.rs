//! The library's model of an absolute URL: the plain values the navigation
//! logic reads — canonical serialization, scheme and host — parsed and
//! resolved by the `url` crate behind trusted wrappers.

use crate::text::{str_eq, starts_with};
use vstd::prelude::*;

verus! {

/// An absolute URL, held as the plain values the logic reads: its canonical
/// serialization, its scheme, and its host (empty when it has none). Two
/// URLs are the same exactly when their canonical serializations are.
#[derive(Debug)]
pub struct Url {
    pub serialized: String,
    pub scheme: String,
    pub host: String,
}

/// Canonical serialization, scheme and host (empty when there is none) of
/// the absolute URL that `s` parses to, when it parses at all.
pub uninterp spec fn url_parts(s: Seq<char>) -> Option<(Seq<char>, Seq<char>, Seq<char>)>;

/// Canonical serialization, scheme and host of the URL that `reference`
/// resolves to against the absolute URL whose canonical serialization is
/// `base`, when the resolution succeeds.
pub uninterp spec fn url_joined(base: Seq<char>, reference: Seq<char>) -> Option<
    (Seq<char>, Seq<char>, Seq<char>),
>;

/// Does `u` hold exactly the components `p`?
pub open spec fn url_is(u: Url, p: (Seq<char>, Seq<char>, Seq<char>)) -> bool {
    u.serialized@ == p.0 && u.scheme@ == p.1 && u.host@ == p.2
}

/// Relies on `url::Url::parse` and the accessors `Url::as_str`,
/// `Url::scheme` and `Url::host_str`: parses `s` as an absolute URL and
/// reads its components. The outcome depends on `s` alone.
#[verifier::external_body]
pub(crate) fn parse_url(s: &str) -> (r: Option<Url>)
    ensures
        r is Some <==> url_parts(s@) is Some,
        r is Some ==> url_is(r->0, url_parts(s@)->0),
{
    match url::Url::parse(s) {
        Ok(u) => Some(
            Url {
                serialized: String::from(u.as_str()),
                scheme: String::from(u.scheme()),
                host: String::from(u.host_str().unwrap_or("")),
            },
        ),
        Err(_) => None,
    }
}

/// Relies on `url::Url::parse` and `url::Url::join`: resolves `reference`
/// against the base URL given by its canonical serialization. The outcome
/// depends on the two strings alone.
#[verifier::external_body]
pub(crate) fn join_url(base: &Url, reference: &str) -> (r: Option<Url>)
    ensures
        r is Some <==> url_joined(base.serialized@, reference@) is Some,
        r is Some ==> url_is(r->0, url_joined(base.serialized@, reference@)->0),
{
    let b = match url::Url::parse(&base.serialized) {
        Ok(b) => b,
        Err(_) => return None,
    };
    match b.join(reference) {
        Ok(u) => Some(
            Url {
                serialized: String::from(u.as_str()),
                scheme: String::from(u.scheme()),
                host: String::from(u.host_str().unwrap_or("")),
            },
        ),
        Err(_) => None,
    }
}

impl Url {
    /// A value-identical copy.
    pub fn duplicate(&self) -> (r: Url)
        ensures
            r == *self,
    {
        Url {
            serialized: self.serialized.clone(),
            scheme: self.scheme.clone(),
            host: self.host.clone(),
        }
    }

    /// Equality by canonical string form.
    pub fn same_as(&self, other: &Url) -> (r: bool)
        ensures
            r == (self.serialized@ == other.serialized@),
    {
        str_eq(self.serialized.as_str(), other.serialized.as_str())
    }
}

/// The request line the wire protocol sends for `u`: the absolute URL
/// string followed by CR LF, the whole payload of one request.
pub fn request_line(u: &Url) -> (r: String)
    ensures
        r@ == u.serialized@ + "\r\n"@,
{
    let mut s = u.serialized.clone();
    s.append("\r\n");
    s
}

/// The URL of the built-in blank page under the internal pseudo-scheme.
pub fn about_new_url() -> (r: Url)
    ensures
        r.serialized@ == "about://new"@,
        r.scheme@ == "about"@,
        r.host@ == "new"@,
{
    Url {
        serialized: String::from_str("about://new"),
        scheme: String::from_str("about"),
        host: String::from_str("new"),
    }
}

/// The `scheme://` prefix of the wire protocol, as it stands at the front
/// of a canonical URL.
pub open spec fn protocol_prefix() -> Seq<char> {
    "gemini://"@
}

/// The user-facing form of a serialized URL: the wire protocol's
/// `scheme://` prefix is stripped; any other URL shows whole.
pub open spec fn display_spec(s: Seq<char>) -> Seq<char> {
    if protocol_prefix().is_prefix_of(s) {
        s.skip(protocol_prefix().len() as int)
    } else {
        s
    }
}

/// Serialization, scheme and host of the URL whose canonical serialization
/// is `base`, re-issued with `input` as its query, percent-encoded as a
/// query is.
pub uninterp spec fn url_with_query(base: Seq<char>, input: Seq<char>) -> Option<
    (Seq<char>, Seq<char>, Seq<char>),
>;

/// Relies on `url::Url::parse` and `url::Url::set_query`: re-reads the URL
/// from its canonical serialization and sets its query to `input`, which the
/// crate percent-encodes as a query. The outcome depends on the two strings
/// alone.
#[verifier::external_body]
fn set_query_url(base: &Url, input: &str) -> (r: Option<Url>)
    ensures
        r is Some <==> url_with_query(base.serialized@, input@) is Some,
        r is Some ==> url_is(r->0, url_with_query(base.serialized@, input@)->0),
{
    let mut u = match url::Url::parse(&base.serialized) {
        Ok(u) => u,
        Err(_) => return None,
    };
    u.set_query(Some(input));
    Some(
        Url {
            serialized: String::from(u.as_str()),
            scheme: String::from(u.scheme()),
            host: String::from(u.host_str().unwrap_or("")),
        },
    )
}

/// Accepts the input-submission intent: the pending request's URL re-issued
/// with the user's input as its query, per the protocol's input-submission
/// convention.
pub fn submit_input(pending: &Url, input: &str) -> (r: Option<Url>)
    ensures
        r is Some <==> url_with_query(pending.serialized@, input@) is Some,
        r is Some ==> url_is(r->0, url_with_query(pending.serialized@, input@)->0),
{
    set_query_url(pending, input)
}

/// The address text amended as the navigate intent takes it: the wire
/// protocol's prefix is put in front when absent.
pub open spec fn amended_input(s: Seq<char>) -> Seq<char> {
    if protocol_prefix().is_prefix_of(s) {
        s
    } else {
        protocol_prefix() + s
    }
}

/// Turns what the user typed in the address field into a URL, putting the
/// wire protocol's scheme in front when none is given.
pub fn navigate_intent(input: &str) -> (r: Option<Url>)
    ensures
        r is Some <==> url_parts(amended_input(input@)) is Some,
        r is Some ==> url_is(r->0, url_parts(amended_input(input@))->0),
{
    proof {
        reveal_strlit("gemini://");
    }
    if starts_with(input, "gemini://") {
        parse_url(input)
    } else {
        let mut s = String::from_str("gemini://");
        s.append(input);
        parse_url(s.as_str())
    }
}

/// Renders `u` for the address field, stripping the wire protocol's prefix.
pub fn display_url_of(u: &Url) -> (r: String)
    ensures
        r@ == display_spec(u.serialized@),
{
    let s = u.serialized.as_str();
    let n = s.unicode_len();
    proof {
        reveal_strlit("gemini://");
    }
    if starts_with(s, "gemini://") {
        String::from_str(s.substring_char(9, n))
    } else {
        String::from_str(s)
    }
}

} // verus!
