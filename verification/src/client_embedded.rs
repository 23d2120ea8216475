//! The embedded client: fixed-capacity buffers and explicit bounded
//! reads. The caller owns the embedded HTTP stack; it asks the client
//! for the request URL, reads the response body in chunks, and hands
//! each chunk in. The client decides, before anything is stored,
//! whether a chunk still fits — a response that would overflow the body
//! buffer fails the whole call with `TooLarge`.

use vstd::prelude::*;
use vstd::string::StringExecFns;
use vstd::utf8::encode_utf8;
use crate::types::Arrival;
use crate::decode::{DecodeError, decode_arrivals, spec_decode_arrivals, arrivals_view};
use crate::json::spec_doc;

verus! {

/// The error taxonomy of the embedded client: a transport error of the
/// underlying stack, a decode failure, or a buffer capacity overflow.
#[derive(Debug)]
pub enum Error<E> {
    Http(E),
    Json(DecodeError),
    TooLarge,
}

/// The capacity of the URL render buffer, in bytes.
pub const URL_CAPACITY: usize = 128;

/// The full arrivals URL for a stop, production base included.
pub open spec fn spec_embedded_arrivals_url(stop: Seq<char>) -> Seq<char> {
    "https://api.carrismetropolitana.pt/v2/arrivals/by_stop/"@ + stop
}

/// The embedded transit API client: a body buffer of fixed capacity,
/// reused sequentially across calls.
pub struct CarrisClient {
    body: Vec<u8>,
    body_capacity: usize,
}

impl CarrisClient {
    /// The body bytes accumulated so far.
    pub closed spec fn body_bytes(&self) -> Seq<u8> {
        self.body@
    }

    /// The fixed body capacity the client was built with.
    pub closed spec fn capacity(&self) -> int {
        self.body_capacity as int
    }

    /// The buffer never outgrows its capacity.
    pub closed spec fn wf(&self) -> bool {
        self.body@.len() <= self.body_capacity
    }

    /// A fresh client whose body buffer has the given capacity.
    pub fn new(body_capacity: usize) -> (r: Self)
        ensures
            r.wf(),
            r.capacity() == body_capacity as int,
            r.body_bytes() == Seq::<u8>::empty(),
    {
        CarrisClient { body: Vec::new(), body_capacity }
    }

    /// Starts an arrivals request: clears the body buffer and renders
    /// the request URL into the bounded render buffer. Fails with
    /// `TooLarge`, before any network work, exactly when the rendered
    /// URL exceeds [`URL_CAPACITY`] bytes.
    pub fn begin_arrivals_request<E>(&mut self, stop: &str) -> (r: Result<String, Error<E>>)
        requires
            old(self).wf(),
        ensures
            final(self).wf(),
            final(self).capacity() == old(self).capacity(),
            final(self).body_bytes() == Seq::<u8>::empty(),
            r matches Ok(url) ==> url@ == spec_embedded_arrivals_url(stop@) && encode_utf8(
                spec_embedded_arrivals_url(stop@),
            ).len() <= URL_CAPACITY,
            r matches Err(e) ==> e is TooLarge && encode_utf8(
                spec_embedded_arrivals_url(stop@),
            ).len() > URL_CAPACITY,
    {
        self.body.clear();
        let mut url = String::from_str("https://api.carrismetropolitana.pt/v2/arrivals/by_stop/");
        url.append(stop);
        if url.as_str().as_bytes().len() > URL_CAPACITY {
            return Err(Error::TooLarge);
        }
        Ok(url)
    }

    /// Accepts one chunk of the response body. Fails with `TooLarge`,
    /// leaving the buffer as it stood, exactly when the accumulated
    /// length would exceed the capacity; otherwise appends the chunk. A
    /// caller loop that stops at its stack's end-of-body marker thus
    /// accumulates a body of up to the capacity, and a longer response
    /// fails at the first chunk that no longer fits.
    pub fn push_body_chunk<E>(&mut self, chunk: &[u8]) -> (r: Result<(), Error<E>>)
        requires
            old(self).wf(),
        ensures
            final(self).wf(),
            final(self).capacity() == old(self).capacity(),
            r is Ok <==> old(self).body_bytes().len() + chunk@.len() <= old(self).capacity(),
            r is Ok ==> final(self).body_bytes() == old(self).body_bytes() + chunk@,
            r matches Err(e) ==> e is TooLarge && *final(self) == *old(self),
    {
        if chunk.len() > self.body_capacity - self.body.len() {
            return Err(Error::TooLarge);
        }
        let mut i: usize = 0;
        let ghost prev = self.body@;
        while i < chunk.len()
            invariant
                i <= chunk@.len(),
                self.body@ =~= prev + chunk@.subrange(0, i as int),
                prev.len() + chunk@.len() <= self.body_capacity,
                self.body_capacity == old(self).body_capacity,
            decreases chunk@.len() - i,
        {
            self.body.push(chunk[i]);
            i = i + 1;
            proof {
                assert(self.body@ =~= prev + chunk@.subrange(0, i as int));
            }
        }
        proof {
            assert(prev + chunk@.subrange(0, chunk@.len() as int) =~= prev + chunk@);
        }
        Ok(())
    }

    /// Finishes the call: decodes the accumulated body — exactly the
    /// bytes received, not the whole buffer — as an arrival list.
    pub fn finish_arrivals<E>(&self) -> (r: Result<Vec<Arrival>, Error<E>>)
        ensures
            r matches Ok(v) ==> spec_decode_arrivals(self.body_bytes()) == Some(arrivals_view(v@)),
            r matches Err(e) ==> spec_decode_arrivals(self.body_bytes()) is None && (e matches
                Error::Json(de) && (de == DecodeError::Syntax <==> spec_doc(
                self.body_bytes(),
            ) is None)),
    {
        match decode_arrivals(self.body.as_slice()) {
            Ok(v) => Ok(v),
            Err(de) => Err(Error::Json(de)),
        }
    }
}

} // verus!
