//! The stop-list cache: fetched once, kept as a file's bytes.
//!
//! The cache is modelled as the file's contents — present bytes or an
//! absent file; the caller keeps those bytes on disk and performs the
//! reads and writes. The decisions — when to fetch, what to write, how
//! to read the catalog back — live here.

use vstd::prelude::*;
use crate::types::{Arrival, Stop, StopView};
use crate::decode::{DecodeError, decode_stops, spec_decode_stops, stops_view};
use crate::encode::{encode_stops_pretty, spec_encode_stops_pretty};

verus! {

/// The transit API capability interface, as the cache layer and tests
/// consume it: a catalog fetch and an arrivals fetch. `calls` counts
/// the catalog fetches made; `available` is the catalog a successful
/// fetch yields. Implementations live with whoever owns the transport;
/// the library's own implementation is the counting fake below.
pub trait CarrisAPI: Sized {
    type Error;

    /// How many times this source has been asked for the full catalog.
    spec fn calls(&self) -> nat;

    /// The catalog a successful fetch returns.
    spec fn available(&self) -> Seq<StopView>;

    /// Constructs the source in its default configuration.
    fn new() -> (r: Self)
        ensures
            r.calls() == 0,
    ;

    /// Constructs the source against an arbitrary base URL.
    fn new_with_base_url(base_url: &str) -> (r: Self)
        ensures
            r.calls() == 0,
    ;

    /// Fetches the arrivals of one stop; the catalog fetch count is
    /// untouched.
    fn arrivals_by_stop(&mut self, stop: &str) -> (r: Result<Vec<Arrival>, Self::Error>)
        ensures
            final(self).calls() == old(self).calls(),
            final(self).available() == old(self).available(),
    ;

    /// Fetches the full stop catalog, once per call.
    fn get_all_stops(&mut self) -> (r: Result<Vec<Stop>, Self::Error>)
        ensures
            final(self).calls() == old(self).calls() + 1,
            final(self).available() == old(self).available(),
            r matches Ok(v) ==> stops_view(v@) == final(self).available(),
    ;
}

/// Why the cached catalog could not be produced.
#[derive(Debug)]
pub enum CacheError<E> {
    /// The underlying fetch failed.
    Fetch(E),
    /// The cache bytes do not decode as a stop catalog.
    Decode(DecodeError),
}

/// Ensures the stop cache exists: where the cache is already present
/// nothing happens and the source is not asked; where it is absent the
/// catalog is fetched exactly once and its pretty encoding becomes the
/// cache contents. A fetch failure leaves the cache absent and is
/// returned.
pub fn ensure_stops_cached_with<A: CarrisAPI>(cache: &mut Option<Vec<u8>>, api: &mut A) -> (r:
    Result<(), A::Error>)
    ensures
        (*old(cache)) is Some ==> *final(cache) == *old(cache) && r is Ok && final(api).calls()
            == old(api).calls(),
        (*old(cache)) is None ==> final(api).calls() == old(api).calls() + 1,
        (*old(cache)) is None && r is Ok ==> ((*final(cache)) matches Some(b) && b@
            == spec_encode_stops_pretty(final(api).available())),
        r is Err ==> *final(cache) == *old(cache),
        final(api).available() == old(api).available(),
{
    if cache.is_some() {
        return Ok(());
    }
    match api.get_all_stops() {
        Ok(stops) => {
            let bytes = encode_stops_pretty(&stops);
            *cache = Some(bytes);
            Ok(())
        },
        Err(e) => Err(e),
    }
}

/// The cached catalog: ensures the cache as above, then decodes its
/// bytes. Where the cache was already present the source is not asked
/// and the call succeeds exactly when those bytes decode; a fetch
/// failure or undecodable bytes are reported as such.
pub fn get_all_stops_cached_with<A: CarrisAPI>(cache: &mut Option<Vec<u8>>, api: &mut A) -> (r:
    Result<Vec<Stop>, CacheError<A::Error>>)
    ensures
        (*old(cache)) is Some ==> *final(cache) == *old(cache) && final(api).calls() == old(
            api,
        ).calls(),
        (*old(cache)) is None ==> final(api).calls() == old(api).calls() + 1,
        r matches Ok(v) ==> ((*final(cache)) matches Some(b) && spec_decode_stops(b@) == Some(
            stops_view(v@),
        )),
        r matches Err(e) ==> (e matches CacheError::Decode(de) ==> ((*final(cache)) matches Some(b)
            && spec_decode_stops(b@) is None)),
        r matches Err(e) ==> (e matches CacheError::Fetch(f) ==> *final(cache) == *old(cache)),
        (*old(cache)) matches Some(b0) ==> (r is Ok <==> spec_decode_stops(b0@) is Some),
{
    match ensure_stops_cached_with(cache, api) {
        Ok(()) => {},
        Err(e) => {
            return Err(CacheError::Fetch(e));
        },
    }
    match cache {
        Some(b) => match decode_stops(b.as_slice()) {
            Ok(v) => Ok(v),
            Err(de) => Err(CacheError::Decode(de)),
        },
        None => unreached(),
    }
}

/// An API over a fixed catalog, counting its catalog fetches: the fake
/// that cache tests drive, and the witness that the interface contract
/// is implementable.
pub struct FixedStops {
    stops: Vec<Stop>,
    hits: u64,
    counted: Ghost<nat>,
}

impl FixedStops {
    /// A source that always serves this catalog.
    pub fn with_stops(stops: Vec<Stop>) -> (r: Self)
        ensures
            r.calls() == 0,
            r.available() == stops_view(stops@),
    {
        FixedStops { stops, hits: 0, counted: Ghost(0) }
    }

    /// How many fetches were made, for tests; saturates at the integer
    /// limit.
    pub fn count(&self) -> u64 {
        self.hits
    }
}

impl CarrisAPI for FixedStops {
    type Error = String;

    closed spec fn calls(&self) -> nat {
        self.counted@
    }

    closed spec fn available(&self) -> Seq<StopView> {
        stops_view(self.stops@)
    }

    fn new() -> (r: Self) {
        FixedStops { stops: Vec::new(), hits: 0, counted: Ghost(0) }
    }

    fn new_with_base_url(base_url: &str) -> (r: Self) {
        let _ = base_url;
        FixedStops { stops: Vec::new(), hits: 0, counted: Ghost(0) }
    }

    fn arrivals_by_stop(&mut self, stop: &str) -> (r: Result<Vec<Arrival>, String>) {
        let _ = stop;
        Ok(Vec::new())
    }

    fn get_all_stops(&mut self) -> (r: Result<Vec<Stop>, String>) {
        self.counted = Ghost(self.counted@ + 1);
        if self.hits < u64::MAX {
            self.hits = self.hits + 1;
        }
        let copy = self.stops.clone();
        proof {
            assert forall|i: int| 0 <= i < self.stops@.len() implies copy@[i]@ == self.stops@[i]@ by {
                assert(vstd::pervasive::cloned::<Stop>(self.stops@[i], copy@[i]));
            }
            assert(stops_view(copy@) =~= stops_view(self.stops@));
        }
        Ok(copy)
    }
}

} // verus!
