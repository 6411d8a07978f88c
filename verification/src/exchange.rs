//! The state of one request in flight: the body received so far, the headers
//! under construction, and the callback that is owed the result.

use crate::codec::{line_step, parse_header};
use crate::error::Error;
use crate::headers::HeaderMap;
use crate::response::Response;
use vstd::prelude::*;

verus! {

/// One request in flight. `C` is the completion callback, which the exchange
/// carries and hands out once, together with the result, when it is finished.
pub struct Exchange<C> {
    callback: C,
    body: Vec<u8>,
    headers: HeaderMap,
    first: bool,
}

/// Whether a finished exchange's result is the one that `outcome` calls for:
/// the error itself for a failed transfer, else a response made of the status
/// code, the received body and the received headers.
pub open spec fn result_matches(
    result: Result<Response, Error>,
    outcome: Result<u32, Error>,
    body: Seq<u8>,
    headers: Map<Seq<char>, Seq<char>>,
) -> bool {
    match outcome {
        Ok(status) => result.is_ok() && result.unwrap().spec_status_code() == status
            && result.unwrap().spec_body() == body && result.unwrap().spec_headers() == headers,
        Err(e) => result == Err::<Response, Error>(e),
    }
}

impl<C> Exchange<C> {
    /// The callback that is owed the result.
    pub closed spec fn callback(&self) -> C {
        self.callback
    }

    /// The body received so far.
    pub closed spec fn body(&self) -> Seq<u8> {
        self.body@
    }

    /// The headers received so far.
    pub closed spec fn headers(&self) -> Map<Seq<char>, Seq<char>> {
        self.headers@
    }

    /// Whether the next header line opens a block, and so is a status line.
    pub closed spec fn expects_status_line(&self) -> bool {
        self.first
    }

    /// An exchange that has received nothing yet.
    pub fn new(callback: C) -> (r: Exchange<C>)
        ensures
            r.callback() == callback,
            r.body() == Seq::<u8>::empty(),
            r.headers() == Map::<Seq<char>, Seq<char>>::empty(),
            r.expects_status_line(),
    {
        Exchange { callback, body: Vec::new(), headers: HeaderMap::new(), first: true }
    }

    /// Takes in one header line as the transport delivers it, and says whether
    /// the transfer may go on: a line that is no header field stops it.
    pub fn on_header(&mut self, line: &[u8]) -> (accepted: bool)
        ensures
            (accepted, final(self).expects_status_line(), final(self).headers()) == line_step(
                line@,
                old(self).expects_status_line(),
                old(self).headers(),
            ),
            final(self).body() == old(self).body(),
            final(self).callback() == old(self).callback(),
    {
        parse_header(line, &mut self.first, &mut self.headers)
    }

    /// Appends a piece of the body, and says how many bytes were taken: all
    /// of them.
    pub fn on_body(&mut self, data: &[u8]) -> (taken: usize)
        ensures
            taken == data@.len(),
            final(self).body() == old(self).body() + data@,
            final(self).headers() == old(self).headers(),
            final(self).expects_status_line() == old(self).expects_status_line(),
            final(self).callback() == old(self).callback(),
    {
        self.body.extend_from_slice(data);
        data.len()
    }

    /// Ends the exchange. Hands out the callback and the result that it is
    /// owed: the error of a failed transfer, or the response made of the
    /// status code and of what was received.
    pub fn finish(self, outcome: Result<u32, Error>) -> (r: (C, Result<Response, Error>))
        ensures
            r.0 == self.callback(),
            result_matches(r.1, outcome, self.body(), self.headers()),
    {
        match outcome {
            Ok(status) => (self.callback, Ok(Response::new(status, self.body, self.headers))),
            Err(e) => (self.callback, Err(e)),
        }
    }
}

} // verus!
