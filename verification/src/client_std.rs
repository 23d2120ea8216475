//! The standard-environment client: it owns the base URL and computes
//! request URLs and decodings; the caller performs the HTTP GET itself
//! and hands the response body back as bytes.

use vstd::prelude::*;
use vstd::string::StringExecFns;

verus! {

/// The production base URL of the transit API.
pub open spec fn spec_default_base_url() -> Seq<char> {
    "https://api.carrismetropolitana.pt/v2"@
}

/// The transit API client of the standard environment: a base URL; the
/// unbounded HTTP transport stays with the caller.
pub struct CarrisClient {
    pub base_url: String,
}

impl CarrisClient {
    /// Constructs a client against the production base URL.
    pub fn new() -> (r: Self)
        ensures
            r.base_url@ == spec_default_base_url(),
    {
        CarrisClient { base_url: String::from_str("https://api.carrismetropolitana.pt/v2") }
    }

    /// Constructs a client against an arbitrary base URL, as tests
    /// against a mock server do.
    pub fn new_with_base_url(base_url: &str) -> (r: Self)
        ensures
            r.base_url@ == base_url@,
    {
        CarrisClient { base_url: String::from_str(base_url) }
    }

    /// The URL of the arrivals request for a stop: the base URL, the
    /// arrivals path, the stop identifier. The identifier is
    /// interpolated unescaped, exactly as the wire protocol's path is
    /// defined.
    pub fn arrivals_url(&self, stop: &str) -> (r: String)
        ensures
            r@ == self.base_url@ + "/arrivals/by_stop/"@ + stop@,
    {
        let mut url = self.base_url.clone();
        url.append("/arrivals/by_stop/");
        url.append(stop);
        url
    }

    /// The URL of the stop-catalog request.
    pub fn stops_url(&self) -> (r: String)
        ensures
            r@ == self.base_url@ + "/stops"@,
    {
        let mut url = self.base_url.clone();
        url.append("/stops");
        url
    }
}

} // verus!
