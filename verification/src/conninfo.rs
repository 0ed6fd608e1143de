//! Connection metadata for a request: the scheme and host the client
//! used, derived from forwarding headers when a proxy supplied them,
//! falling back to the `Host` header, the peer address, and a default.
use vstd::prelude::*;

use crate::headers::{first_value_spec, HeaderList};

verus! {

/// The view of an optional owned string.
pub open spec fn opt_str_view(p: Option<String>) -> Option<Seq<char>> {
    match p {
        Some(s) => Some(s@),
        None => None,
    }
}

/// The scheme the client used: the first `X-Forwarded-Proto` value if a
/// proxy recorded one, otherwise plain `http` (this core carries no
/// transport-security information of its own).
pub open spec fn spec_scheme(headers: Seq<(Seq<char>, Seq<char>)>) -> Seq<char> {
    match first_value_spec(headers, "x-forwarded-proto"@) {
        Some(v) => v,
        None => "http"@,
    }
}

/// The host the client addressed: the first `X-Forwarded-Host` value,
/// else the `Host` header, else the peer address, else `localhost`.
pub open spec fn spec_host(headers: Seq<(Seq<char>, Seq<char>)>, peer: Option<Seq<char>>) -> Seq<
    char,
> {
    match first_value_spec(headers, "x-forwarded-host"@) {
        Some(v) => v,
        None => match first_value_spec(headers, "host"@) {
            Some(v) => v,
            None => match peer {
                Some(p) => p,
                None => "localhost"@,
            },
        },
    }
}

/// Scheme and host of the connection a request arrived on.
pub struct ConnectionInfo {
    scheme: String,
    host: String,
}

impl View for ConnectionInfo {
    type V = (Seq<char>, Seq<char>);

    closed spec fn view(&self) -> (Seq<char>, Seq<char>) {
        (self.scheme@, self.host@)
    }
}

impl ConnectionInfo {
    /// Compute the connection info a header map and peer address denote.
    pub fn derive(headers: &HeaderList, peer: &Option<String>) -> (r: ConnectionInfo)
        ensures
            r@.0 == spec_scheme(headers@),
            r@.1 == spec_host(headers@, opt_str_view(*peer)),
    {
        let scheme = match headers.first_value("x-forwarded-proto") {
            Some(v) => v,
            None => "http".to_owned(),
        };
        let host = match headers.first_value("x-forwarded-host") {
            Some(v) => v,
            None => match headers.first_value("host") {
                Some(v) => v,
                None => match peer {
                    Some(p) => p.clone(),
                    None => "localhost".to_owned(),
                },
            },
        };
        ConnectionInfo { scheme, host }
    }

    /// The inferred scheme.
    pub fn scheme(&self) -> (r: &str)
        ensures
            r@ == self@.0,
    {
        self.scheme.as_str()
    }

    /// The inferred host.
    pub fn host(&self) -> (r: &str)
        ensures
            r@ == self@.1,
    {
        self.host.as_str()
    }
}

impl Clone for ConnectionInfo {
    /// A copy denoting the same scheme and host.
    fn clone(&self) -> (r: Self)
        ensures
            r@ == self@,
    {
        ConnectionInfo { scheme: self.scheme.clone(), host: self.host.clone() }
    }
}

} // verus!
