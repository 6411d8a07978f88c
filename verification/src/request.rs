//! Requests under construction: the method, the URL, the header lines and the
//! body that the transport will be given.

use crate::error::{Error, ErrorView};
use core::marker::PhantomData;
use vstd::prelude::*;
use vstd::slice::slice_subrange;
use vstd::string::{StringExecFns, StringSliceAdditionalSpecFns};
use vstd::utf8::encode_utf8;

verus! {

/// `curl::easy::List`, the transport's linked list of strings. It is carried
/// as it is; what it holds is known only through `list_lines`.
#[verifier::external_type_specification]
#[verifier::external_body]
pub struct ExList(curl::easy::List);

/// The lines that a transport's list of strings holds, first to last, each
/// by its bytes.
pub uninterp spec fn list_lines(list: curl::easy::List) -> Seq<Seq<u8>>;

/// Calls `curl::easy::List::new`, which makes a list that holds nothing.
#[verifier::external_body]
fn list_new() -> (r: curl::easy::List)
    ensures
        list_lines(r) == Seq::<Seq<u8>>::empty(),
{
    curl::easy::List::new()
}

/// Calls `curl::easy::List::append` and says whether it took the line. It
/// refuses a line that holds a zero byte, and leaves the list as it was; any
/// other line it copies to the end of the list.
#[verifier::external_body]
fn list_append(list: &mut curl::easy::List, line: &str) -> (taken: bool)
    ensures
        taken == !line.spec_bytes().contains(0u8),
        taken ==> list_lines(*final(list)) == list_lines(*old(list)).push(line.spec_bytes()),
        !taken ==> list_lines(*final(list)) == list_lines(*old(list)),
{
    list.append(line).is_ok()
}

/// Walks the list with `curl::easy::List::iter`, which yields the bytes of
/// each line, first to last, and copies each.
#[verifier::external_body]
fn list_items(list: &curl::easy::List) -> (r: Vec<Vec<u8>>)
    ensures
        r.deep_view() == list_lines(*list),
{
    list.iter().map(|line| line.to_vec()).collect()
}

/// How the transport is told the method.
#[derive(Debug, Clone, Copy, PartialEq, Eq, Structural)]
pub enum Verb {
    /// By its own switch for GET.
    Get,
    /// By its own switch for POST.
    Post,
    /// By its own switch for PUT.
    Put,
    /// By name.
    Custom,
}

/// How the transport is told a method: GET, POST and PUT, written so, have
/// switches of their own; any other method goes by its name.
pub open spec fn spec_verb_of(method: Seq<char>) -> Verb {
    if method == "GET"@ {
        Verb::Get
    } else if method == "POST"@ {
        Verb::Post
    } else if method == "PUT"@ {
        Verb::Put
    } else {
        Verb::Custom
    }
}

/// How the transport is told the method.
pub fn verb_of(method: &str) -> (r: Verb)
    ensures
        r == spec_verb_of(method@),
{
    let owned = method.to_owned();
    if owned == "GET".to_owned() {
        Verb::Get
    } else if owned == "POST".to_owned() {
        Verb::Post
    } else if owned == "PUT".to_owned() {
        Verb::Put
    } else {
        Verb::Custom
    }
}

/// The header line of a key and a value, as the transport is given it.
pub open spec fn header_line(key: Seq<char>, value: Seq<char>) -> Seq<char> {
    key + ": "@ + value
}

/// The header lines after one more header: a line without a zero byte is
/// added at the end; one that holds a zero byte cannot be sent and is left
/// out.
pub open spec fn lines_with(lines: Seq<Seq<u8>>, key: Seq<char>, value: Seq<char>) -> Seq<
    Seq<u8>,
> {
    let bytes = encode_utf8(header_line(key, value));
    if bytes.contains(0u8) {
        lines
    } else {
        lines.push(bytes)
    }
}

/// The recorded failure after one more header: the first failure stays; a
/// header that cannot be sent is an invalid header.
pub open spec fn failure_with(
    failure: Option<ErrorView>,
    key: Seq<char>,
    value: Seq<char>,
) -> Option<ErrorView> {
    if failure.is_none() && encode_utf8(header_line(key, value)).contains(0u8) {
        Some(ErrorView::InvalidHeader)
    } else {
        failure
    }
}

/// A recorded failure, its text taken as a sequence of characters.
pub open spec fn failure_view(failure: Option<Error>) -> Option<ErrorView> {
    match failure {
        Some(e) => Some(e@),
        None => None,
    }
}

/// A request body that is borrowed for as long as the request is sent, and
/// read out piece by piece.
#[derive(Clone, Copy)]
pub struct SendSlice<'d> {
    data: &'d [u8],
}

/// The piece of `data` that is read next: what stands from `pos` on, as far
/// as `capacity` bytes can hold it.
pub open spec fn spec_chunk(data: Seq<u8>, pos: int, capacity: int) -> Seq<u8> {
    if 0 <= pos < data.len() && capacity >= 0 {
        if data.len() - pos <= capacity {
            data.skip(pos)
        } else {
            data.subrange(pos, pos + capacity)
        }
    } else {
        Seq::empty()
    }
}

impl<'d> SendSlice<'d> {
    /// The bytes.
    pub closed spec fn view(&self) -> Seq<u8> {
        self.data@
    }

    /// A body of these bytes.
    pub fn new(obj: &'d [u8]) -> (r: SendSlice<'d>)
        ensures
            r@ == obj@,
    {
        SendSlice { data: obj }
    }

    /// The bytes.
    pub fn deref(&self) -> (r: &'d [u8])
        ensures
            r@ == self@,
    {
        self.data
    }

    /// The piece that is read next when `pos` bytes have been read and the
    /// reader has room for `capacity` bytes. It is empty exactly when nothing
    /// is left or there is no room.
    pub fn chunk(&self, pos: usize, capacity: usize) -> (r: &'d [u8])
        ensures
            r@ == spec_chunk(self@, pos as int, capacity as int),
    {
        let n = self.data.len();
        if pos >= n {
            let r = slice_subrange(self.data, n, n);
            proof {
                assert(r@ =~= Seq::<u8>::empty());
            }
            r
        } else if n - pos <= capacity {
            let r = slice_subrange(self.data, pos, n);
            proof {
                assert(r@ =~= self.data@.skip(pos as int));
            }
            r
        } else {
            slice_subrange(self.data, pos, pos + capacity)
        }
    }
}

/// The body of a request.
pub enum Body<'d> {
    /// None.
    Empty,
    /// Bytes that the request owns.
    Owned(Vec<u8>),
    /// Bytes that are borrowed for as long as the request is sent.
    Borrowed(SendSlice<'d>),
}

impl<'d> Body<'d> {
    /// The bytes.
    pub open spec fn view(&self) -> Seq<u8> {
        match self {
            Body::Empty => Seq::empty(),
            Body::Owned(data) => data@,
            Body::Borrowed(data) => data@,
        }
    }

    /// The piece that is read next when `pos` bytes have been read and the
    /// reader has room for `capacity` bytes.
    pub fn chunk(&self, pos: usize, capacity: usize) -> (r: &[u8])
        ensures
            r@ == spec_chunk(self@, pos as int, capacity as int),
    {
        match self {
            Body::Empty => {
                let none: &[u8] = &[];
                SendSlice::new(none).chunk(pos, capacity)
            },
            Body::Owned(data) => SendSlice::new(data.as_slice()).chunk(pos, capacity),
            Body::Borrowed(data) => data.chunk(pos, capacity),
        }
    }
}

/// What a request comes to when it is sent.
pub struct RequestParts<'d> {
    /// The method.
    pub method: String,
    /// How the transport is told the method.
    pub verb: Verb,
    /// The URL.
    pub url: String,
    /// The header lines.
    pub headers: curl::easy::List,
    /// The body.
    pub body: Body<'d>,
    /// The failure that the request must end with, if building it failed.
    pub failure: Option<Error>,
}

/// A session of blocking requests.
pub struct Session {}

/// A blocking request under construction.
pub struct RequestBuilder<'s, 'd> {
    method: String,
    verb: Verb,
    url: String,
    headers: curl::easy::List,
    body: Body<'d>,
    failure: Option<Error>,
    _session_marker: PhantomData<&'s Session>,
}

/// A request under construction that will be sent without blocking.
pub struct AsyncRequestBuilder {
    method: String,
    url: String,
    headers: curl::easy::List,
    body: Vec<u8>,
    failure: Option<Error>,
}

/// Adds the header line of a key and a value to the list, and records the
/// failure if the line cannot be sent.
fn add_header(headers: &mut curl::easy::List, failure: &mut Option<Error>, key: &str, value: &str)
    ensures
        list_lines(*final(headers)) == lines_with(list_lines(*old(headers)), key@, value@),
        failure_view(*final(failure)) == failure_with(
            failure_view(*old(failure)),
            key@,
            value@,
        ),
        old(failure).is_some() ==> *final(failure) == *old(failure),
{
    let mut line = key.to_owned();
    line.append(": ");
    line.append(value);
    let taken = list_append(headers, line.as_str());
    if !taken && failure.is_none() {
        *failure = Some(Error::InvalidHeader);
    }
}

impl Session {
    /// A session.
    pub fn new() -> (r: Session) {
        Session {  }
    }

    /// A request for the URL by the method, with no headers and no body.
    pub fn request<'s, 'd>(&'s self, method: &str, url: &str) -> (r: RequestBuilder<'s, 'd>)
        ensures
            r.method() == method@,
            r.verb() == spec_verb_of(method@),
            r.url() == url@,
            r.header_lines() == Seq::<Seq<u8>>::empty(),
            r.body() == Seq::<u8>::empty(),
            r.failure().is_none(),
    {
        RequestBuilder::new(method, url)
    }
}

impl<'s, 'd> RequestBuilder<'s, 'd> {
    /// The method.
    pub closed spec fn method(&self) -> Seq<char> {
        self.method@
    }

    /// How the transport is told the method.
    pub closed spec fn verb(&self) -> Verb {
        self.verb
    }

    /// The URL.
    pub closed spec fn url(&self) -> Seq<char> {
        self.url@
    }

    /// The header lines, first to last.
    pub closed spec fn header_lines(&self) -> Seq<Seq<u8>> {
        list_lines(self.headers)
    }

    /// The body.
    pub closed spec fn body(&self) -> Seq<u8> {
        self.body@
    }

    /// The failure that the request must end with, if building it failed.
    pub closed spec fn failure(&self) -> Option<ErrorView> {
        failure_view(self.failure)
    }

    /// A request for the URL by the method, with no headers and no body.
    pub fn new(method: &str, url: &str) -> (r: RequestBuilder<'s, 'd>)
        ensures
            r.method() == method@,
            r.verb() == spec_verb_of(method@),
            r.url() == url@,
            r.header_lines() == Seq::<Seq<u8>>::empty(),
            r.body() == Seq::<u8>::empty(),
            r.failure().is_none(),
    {
        RequestBuilder {
            method: method.to_owned(),
            verb: verb_of(method),
            url: url.to_owned(),
            headers: list_new(),
            body: Body::Empty,
            failure: None,
            _session_marker: PhantomData,
        }
    }

    /// Adds a header. Headers add up: one with a key that was given before
    /// stands beside the earlier one. A header that holds a zero byte cannot
    /// be sent: it is left out, and the request will end with
    /// `InvalidHeader`, unless it was to fail already.
    pub fn header(self, key: &str, value: &str) -> (r: Self)
        ensures
            r.method() == self.method(),
            r.verb() == self.verb(),
            r.url() == self.url(),
            r.body() == self.body(),
            r.header_lines() == lines_with(self.header_lines(), key@, value@),
            r.failure() == failure_with(self.failure(), key@, value@),
    {
        let mut r = self;
        add_header(&mut r.headers, &mut r.failure, key, value);
        r
    }

    /// Gives the request a body that it owns, in place of any other.
    pub fn body_vec(self, data: Vec<u8>) -> (r: Self)
        ensures
            r.method() == self.method(),
            r.verb() == self.verb(),
            r.url() == self.url(),
            r.header_lines() == self.header_lines(),
            r.failure() == self.failure(),
            r.body() == data@,
    {
        let mut r = self;
        r.body = Body::Owned(data);
        r
    }

    /// Gives the request a borrowed body, in place of any other.
    pub fn body_bytes(self, data: &'d [u8]) -> (r: Self)
        ensures
            r.method() == self.method(),
            r.verb() == self.verb(),
            r.url() == self.url(),
            r.header_lines() == self.header_lines(),
            r.failure() == self.failure(),
            r.body() == data@,
    {
        let mut r = self;
        r.body = Body::Borrowed(SendSlice::new(data));
        r
    }

    /// A copy of the header lines, first to last.
    pub fn header_list(&self) -> (r: Vec<Vec<u8>>)
        ensures
            r.deep_view() == self.header_lines(),
    {
        list_items(&self.headers)
    }

    /// What the request comes to, for the transport to send.
    pub fn into_parts(self) -> (r: RequestParts<'d>)
        ensures
            r.method@ == self.method(),
            r.verb == self.verb(),
            r.url@ == self.url(),
            list_lines(r.headers) == self.header_lines(),
            r.body@ == self.body(),
            failure_view(r.failure) == self.failure(),
    {
        RequestParts {
            method: self.method,
            verb: self.verb,
            url: self.url,
            headers: self.headers,
            body: self.body,
            failure: self.failure,
        }
    }
}

impl AsyncRequestBuilder {
    /// The method.
    pub closed spec fn method(&self) -> Seq<char> {
        self.method@
    }

    /// The URL.
    pub closed spec fn url(&self) -> Seq<char> {
        self.url@
    }

    /// The header lines, first to last.
    pub closed spec fn header_lines(&self) -> Seq<Seq<u8>> {
        list_lines(self.headers)
    }

    /// The body.
    pub closed spec fn body(&self) -> Seq<u8> {
        self.body@
    }

    /// The failure that the request must end with, if building it failed.
    pub closed spec fn failure(&self) -> Option<ErrorView> {
        failure_view(self.failure)
    }

    /// A request for the URL by the method, with no headers and no body.
    pub fn new(method: &str, url: &str) -> (r: AsyncRequestBuilder)
        ensures
            r.method() == method@,
            r.url() == url@,
            r.header_lines() == Seq::<Seq<u8>>::empty(),
            r.body() == Seq::<u8>::empty(),
            r.failure().is_none(),
    {
        AsyncRequestBuilder {
            method: method.to_owned(),
            url: url.to_owned(),
            headers: list_new(),
            body: Vec::new(),
            failure: None,
        }
    }

    /// Adds a header, as `RequestBuilder::header` does.
    pub fn header(self, key: &str, value: &str) -> (r: Self)
        ensures
            r.method() == self.method(),
            r.url() == self.url(),
            r.body() == self.body(),
            r.header_lines() == lines_with(self.header_lines(), key@, value@),
            r.failure() == failure_with(self.failure(), key@, value@),
    {
        let mut r = self;
        add_header(&mut r.headers, &mut r.failure, key, value);
        r
    }

    /// Gives the request a body, in place of any other.
    pub fn body_vec(self, data: Vec<u8>) -> (r: Self)
        ensures
            r.method() == self.method(),
            r.url() == self.url(),
            r.header_lines() == self.header_lines(),
            r.failure() == self.failure(),
            r.body() == data@,
    {
        let mut r = self;
        r.body = data;
        r
    }

    /// A copy of the header lines, first to last.
    pub fn header_list(&self) -> (r: Vec<Vec<u8>>)
        ensures
            r.deep_view() == self.header_lines(),
    {
        list_items(&self.headers)
    }

    /// What the request comes to, for the transport to send. An
    /// asynchronous request is always told its method by name.
    pub fn into_parts(self) -> (r: RequestParts<'static>)
        ensures
            r.method@ == self.method(),
            r.verb == Verb::Custom,
            r.url@ == self.url(),
            list_lines(r.headers) == self.header_lines(),
            r.body@ == self.body(),
            failure_view(r.failure) == self.failure(),
    {
        RequestParts {
            method: self.method,
            verb: Verb::Custom,
            url: self.url,
            headers: self.headers,
            body: Body::Owned(self.body),
            failure: self.failure,
        }
    }
}

} // verus!
