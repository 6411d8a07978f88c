//! The finished response, and the read-only view of its headers.

use crate::headers::HeaderMap;
use vstd::prelude::*;

verus! {

/// What an exchange ended with: the status code, the body and the headers.
/// Nothing changes it once it is made.
#[derive(Debug)]
pub struct Response {
    body: Vec<u8>,
    status_code: u32,
    headers: HeaderMap,
}

/// A borrowed, read-only view of a response's headers.
pub struct Headers<'a> {
    headers: &'a HeaderMap,
}

impl Response {
    /// The status code.
    pub closed spec fn spec_status_code(&self) -> u32 {
        self.status_code
    }

    /// The body.
    pub closed spec fn spec_body(&self) -> Seq<u8> {
        self.body@
    }

    /// The header mapping.
    pub closed spec fn spec_headers(&self) -> Map<Seq<char>, Seq<char>> {
        self.headers@
    }

    /// A response made of its three parts.
    pub fn new(status_code: u32, body: Vec<u8>, headers: HeaderMap) -> (r: Response)
        ensures
            r.spec_status_code() == status_code,
            r.spec_body() == body@,
            r.spec_headers() == headers@,
    {
        Response { body, status_code, headers }
    }

    /// The status code.
    pub fn status_code(&self) -> (r: u32)
        ensures
            r == self.spec_status_code(),
    {
        self.status_code
    }

    /// The body.
    pub fn body(&self) -> (r: &[u8])
        ensures
            r@ == self.spec_body(),
    {
        self.body.as_slice()
    }

    /// The headers.
    pub fn headers(&self) -> (r: Headers<'_>)
        ensures
            r@ == self.spec_headers(),
    {
        Headers { headers: &self.headers }
    }
}

impl<'a> Headers<'a> {
    /// The header mapping that is viewed.
    pub closed spec fn view(&self) -> Map<Seq<char>, Seq<char>> {
        self.headers@
    }

    /// The keys, each once, in no order that callers may rely on.
    pub fn list(&self) -> (r: Vec<&str>)
        ensures
            self@.dom().finite(),
            r@.len() == self@.dom().len(),
            forall|i: int| 0 <= i < r@.len() ==> self@.contains_key(#[trigger] r@[i]@),
            forall|i: int, j: int|
                0 <= i < r@.len() && 0 <= j < r@.len() && i != j ==> r@[i]@ != r@[j]@,
            forall|k: Seq<char>|
                self@.contains_key(k) ==> exists|i: int| 0 <= i < r@.len() && r@[i]@ == k,
    {
        self.headers.list()
    }

    /// The value of the header whose key is exactly `key`, if there is one.
    pub fn get(&self, key: &str) -> (r: Option<&str>)
        ensures
            match r {
                Some(v) => self@.contains_key(key@) && v@ == self@[key@],
                None => !self@.contains_key(key@),
            },
    {
        self.headers.get(key)
    }
}

} // verus!
