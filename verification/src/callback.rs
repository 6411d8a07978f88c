//! One exchange on the callback-driven system HTTP stack. The stack reports
//! each step through a status callback; what the exchange does about a
//! report, and what it asks of the stack next, is decided here. The state is
//! taken by value and handed back, or it ends: it is never in two hands.

use crate::block::{block_mapping, parse_header_block};
use crate::error::Error;
use crate::exchange::result_matches;
use crate::headers::HeaderMap;
use crate::response::Response;
use vstd::prelude::*;

verus! {

/// How far an exchange has come.
#[derive(Debug, Clone, Copy, PartialEq, Eq, Structural)]
pub enum Stage {
    /// The request is being sent.
    Sending,
    /// The request is sent; the response's headers are awaited.
    AwaitingHeaders,
    /// The headers are in; the body is being received.
    Receiving,
}

/// What the stack reports, with what was read from it on that report.
pub enum Status {
    /// The request has been sent.
    SendRequestComplete,
    /// The headers can be had: the status code and the raw header block.
    HeadersAvailable { status_code: u32, raw_headers: Vec<u16> },
    /// So many bytes of the body can be read; none means that the body is
    /// complete.
    DataAvailable { bytes: u32 },
    /// A read has ended, and gave these bytes.
    ReadComplete { data: Vec<u8> },
    /// A call into the stack failed.
    Failed(Error),
    /// Any other report.
    Other,
}

/// What is asked of the stack next.
#[derive(Debug, Clone, Copy, PartialEq, Eq, Structural)]
pub enum Request {
    /// To receive the response.
    ReceiveResponse,
    /// To say how much of the body can be read.
    QueryData,
    /// To read so many bytes of the body.
    ReadData(u32),
    /// Nothing.
    Nothing,
}

/// An exchange that has not ended. `C` is the completion callback.
pub struct Pending<C> {
    callback: C,
    stage: Stage,
    status_code: u32,
    headers: HeaderMap,
    body: Vec<u8>,
}

/// What a report leads to: the exchange goes on, with a request to the
/// stack, or it ends, and its callback comes out with the result.
pub enum Progress<C> {
    /// The exchange goes on.
    Continue(Pending<C>, Request),
    /// The exchange has ended.
    Complete(C, Result<Response, Error>),
}

impl<C> Pending<C> {
    /// The callback that is owed the result.
    pub closed spec fn callback(&self) -> C {
        self.callback
    }

    /// How far the exchange has come.
    pub closed spec fn stage(&self) -> Stage {
        self.stage
    }

    /// The status code, once the headers are in.
    pub closed spec fn status_code(&self) -> u32 {
        self.status_code
    }

    /// The headers, once they are in.
    pub closed spec fn headers(&self) -> Map<Seq<char>, Seq<char>> {
        self.headers@
    }

    /// The body received so far.
    pub closed spec fn body(&self) -> Seq<u8> {
        self.body@
    }

    /// Whether `after` is this exchange one stage on, with nothing else
    /// changed but what is named.
    pub open spec fn moved_to(
        &self,
        after: Pending<C>,
        stage: Stage,
        status_code: u32,
        headers: Map<Seq<char>, Seq<char>>,
        body: Seq<u8>,
    ) -> bool {
        &&& after.callback() == self.callback()
        &&& after.stage() == stage
        &&& after.status_code() == status_code
        &&& after.headers() == headers
        &&& after.body() == body
    }

    /// An exchange whose request is being sent.
    pub fn new(callback: C) -> (r: Pending<C>)
        ensures
            r.callback() == callback,
            r.stage() == Stage::Sending,
            r.status_code() == 0,
            r.headers() == Map::<Seq<char>, Seq<char>>::empty(),
            r.body() == Seq::<u8>::empty(),
    {
        Pending {
            callback,
            stage: Stage::Sending,
            status_code: 0,
            headers: HeaderMap::new(),
            body: Vec::new(),
        }
    }

    /// Decides about a report of the stack.
    ///
    /// A failed call ends the exchange with that failure, at any stage. The
    /// sent request leads to receiving the response. The headers are parsed
    /// and kept, and the exchange asks how much can be read; a header block
    /// that is not valid ends the exchange with `InvalidHeader`. While the
    /// body is received, bytes that can be read are asked for, bytes that
    /// were read are appended, and the report that none is left ends the
    /// exchange with its response. A report that does not fit the stage
    /// changes nothing and asks for nothing.
    pub fn on_status(self, status: Status) -> (r: Progress<C>)
        ensures
            match (self.stage(), status) {
                (_, Status::Failed(e)) => r matches Progress::Complete(callback, result)
                    && callback == self.callback() && result == Err::<Response, Error>(e),
                (Stage::Sending, Status::SendRequestComplete) => r matches Progress::Continue(
                    after,
                    request,
                ) && request == Request::ReceiveResponse && self.moved_to(
                    after,
                    Stage::AwaitingHeaders,
                    self.status_code(),
                    self.headers(),
                    self.body(),
                ),
                (
                    Stage::AwaitingHeaders,
                    Status::HeadersAvailable { status_code, raw_headers },
                ) => match block_mapping(raw_headers@) {
                    Some(mapping) => r matches Progress::Continue(after, request) && request
                        == Request::QueryData && self.moved_to(
                        after,
                        Stage::Receiving,
                        status_code,
                        mapping,
                        self.body(),
                    ),
                    None => r matches Progress::Complete(callback, result) && callback
                        == self.callback() && result == Err::<Response, Error>(
                        Error::InvalidHeader,
                    ),
                },
                (Stage::Receiving, Status::DataAvailable { bytes }) => if bytes == 0 {
                    r matches Progress::Complete(callback, result) && callback == self.callback()
                        && result_matches(
                        result,
                        Ok(self.status_code()),
                        self.body(),
                        self.headers(),
                    )
                } else {
                    r matches Progress::Continue(after, request) && request == Request::ReadData(
                        bytes,
                    ) && after == self
                },
                (Stage::Receiving, Status::ReadComplete { data }) => r matches Progress::Continue(
                    after,
                    request,
                ) && request == Request::QueryData && self.moved_to(
                    after,
                    Stage::Receiving,
                    self.status_code(),
                    self.headers(),
                    self.body() + data@,
                ),
                _ => r matches Progress::Continue(after, request) && request == Request::Nothing
                    && after == self,
            },
    {
        match status {
            Status::Failed(e) => Progress::Complete(self.callback, Err(e)),
            Status::SendRequestComplete => match self.stage {
                Stage::Sending => {
                    let mut after = self;
                    after.stage = Stage::AwaitingHeaders;
                    Progress::Continue(after, Request::ReceiveResponse)
                },
                _ => Progress::Continue(self, Request::Nothing),
            },
            Status::HeadersAvailable { status_code, raw_headers } => match self.stage {
                Stage::AwaitingHeaders => match parse_header_block(raw_headers.as_slice()) {
                    Ok(headers) => {
                        let after = Pending {
                            callback: self.callback,
                            stage: Stage::Receiving,
                            status_code,
                            headers,
                            body: self.body,
                        };
                        Progress::Continue(after, Request::QueryData)
                    },
                    Err(_) => Progress::Complete(self.callback, Err(Error::InvalidHeader)),
                },
                _ => Progress::Continue(self, Request::Nothing),
            },
            Status::DataAvailable { bytes } => match self.stage {
                Stage::Receiving => {
                    if bytes == 0 {
                        let response = Response::new(self.status_code, self.body, self.headers);
                        Progress::Complete(self.callback, Ok(response))
                    } else {
                        Progress::Continue(self, Request::ReadData(bytes))
                    }
                },
                _ => Progress::Continue(self, Request::Nothing),
            },
            Status::ReadComplete { data } => match self.stage {
                Stage::Receiving => {
                    let mut after = self;
                    after.body.extend_from_slice(data.as_slice());
                    proof {
                        assert(after.body@ =~= self.body@ + data@);
                    }
                    Progress::Continue(after, Request::QueryData)
                },
                _ => Progress::Continue(self, Request::Nothing),
            },
            Status::Other => Progress::Continue(self, Request::Nothing),
        }
    }
}

/// What a completion of the OS-managed URL-loading session comes to. The
/// session hands over the response's metadata and body, or an error. Where
/// the metadata is there, the exchange has its response, the body being what
/// was handed over or nothing; else it has failed with the error that was
/// handed over, or, should that be missing too, with a transport failure
/// that says so.
pub fn completion_result(
    metadata: Option<(u32, HeaderMap)>,
    data: Option<Vec<u8>>,
    error: Option<Error>,
) -> (r: Result<Response, Error>)
    ensures
        match metadata {
            Some((status_code, headers)) => result_matches(
                r,
                Ok(status_code),
                match data {
                    Some(body) => body@,
                    None => Seq::<u8>::empty(),
                },
                headers@,
            ),
            None => match error {
                Some(e) => r == Err::<Response, Error>(e),
                None => r matches Err(Error::Transport { code, description }) && code == 0
                    && description@ == "completion without response or error"@,
            },
        },
{
    match metadata {
        Some((status_code, headers)) => {
            let body = match data {
                Some(body) => body,
                None => Vec::new(),
            };
            Ok(Response::new(status_code, body, headers))
        },
        None => match error {
            Some(e) => Err(e),
            None => Err(
                Error::Transport {
                    code: 0,
                    description: "completion without response or error".to_owned(),
                },
            ),
        },
    }
}

} // verus!
