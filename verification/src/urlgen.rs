//! The final step of URL generation: syntactic validation and
//! normalization of the assembled string, done by the `url` crate.
use vstd::prelude::*;

verus! {

/// What `url::Url::parse` yields on a string: the normalized
/// serialization of the URL it denotes, or nothing when the string is
/// not a valid absolute URL. The result is a function of the
/// characters alone.
pub uninterp spec fn url_normalized(s: Seq<char>) -> Option<Seq<char>>;

/// Relies on `url::Url::parse` and `url::Url::as_str`: parses an
/// absolute URL and serializes it back in normalized form; a string
/// that does not parse is an error.
#[verifier::external_body]
pub(crate) fn parse_url(s: &str) -> (r: Option<String>)
    ensures
        match r {
            Some(u) => url_normalized(s@) == Some(u@),
            None => url_normalized(s@) is None,
        },
{
    match url::Url::parse(s) {
        Ok(u) => Some(u.as_str().to_owned()),
        Err(_) => None,
    }
}

/// A generated URL: the normalized serialization produced for a named
/// route.
pub struct GeneratedUrl {
    value: String,
}

impl View for GeneratedUrl {
    type V = Seq<char>;

    closed spec fn view(&self) -> Seq<char> {
        self.value@
    }
}

impl GeneratedUrl {
    pub(crate) fn from_string(value: String) -> (r: GeneratedUrl)
        ensures
            r@ == value@,
    {
        GeneratedUrl { value }
    }

    /// The URL's serialization.
    pub fn as_str(&self) -> (r: &str)
        ensures
            r@ == self@,
    {
        self.value.as_str()
    }
}

} // verus!
