//! Error values returned by the request core. Every failure is a value the
//! caller must handle; nothing here panics or logs.
use vstd::prelude::*;

verus! {

/// Failure of URL generation from a named route.
#[derive(Clone, Copy, Debug, PartialEq, Eq, Structural)]
pub enum UrlGenerationError {
    /// The named route does not exist in the routing table.
    ResourceNotFound,
    /// Fewer segment values were supplied than the template requires.
    NotEnoughElements,
    /// The assembled or returned string is not a syntactically valid URL.
    UrlParse,
}

/// Failure to decode a `Cookie` header segment; carries the segment that
/// could not be parsed, after surrounding whitespace was removed.
#[derive(Debug)]
pub struct CookieParseError {
    pub segment: String,
}

impl CookieParseError {
    /// The malformed segment, as it was handed to the cookie decoder.
    pub fn segment(&self) -> (r: &String)
        ensures
            r == self.segment,
    {
        &self.segment
    }
}

} // verus!
