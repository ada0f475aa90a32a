//! A handler that always answers with one configured response.

use vstd::prelude::*;

verus! {

/// One configured response: the file its body is rendered from, the headers
/// (each a name and a value), the HTTP status and an optional delay in seconds.
#[derive(Debug)]
pub struct SingleResponse {
    response_path: String,
    headers: Vec<Vec<String>>,
    status: u16,
    delay: Option<u64>,
}

/// The mathematical model of a single response.
pub struct SingleResponseView {
    pub response_path: Seq<char>,
    pub headers: Seq<Seq<Seq<char>>>,
    pub status: u16,
    pub delay: Option<u64>,
}

impl View for SingleResponse {
    type V = SingleResponseView;

    closed spec fn view(&self) -> SingleResponseView {
        SingleResponseView {
            response_path: self.response_path@,
            headers: self.headers.deep_view(),
            status: self.status,
            delay: self.delay,
        }
    }
}

impl SingleResponse {
    /// Builds a response from its status, headers, body file and delay.
    pub fn new(status: u16, headers: Vec<Vec<String>>, response_path: String, delay: Option<u64>) -> (r:
        SingleResponse)
        ensures
            r@ == (SingleResponseView {
                response_path: response_path@,
                headers: headers.deep_view(),
                status: status,
                delay: delay,
            }),
    {
        SingleResponse { status: status, response_path: response_path, headers: headers, delay: delay }
    }

    /// The HTTP status of the response.
    pub fn status(&self) -> (r: u16)
        ensures
            r == self@.status,
    {
        self.status
    }

    /// The file the body of the response is rendered from.
    pub fn response_path(&self) -> (r: &String)
        ensures
            r@ == self@.response_path,
    {
        &self.response_path
    }

    /// The headers of the response, each a name and a value.
    pub fn headers(&self) -> (r: &Vec<Vec<String>>)
        ensures
            r.deep_view() == self@.headers,
    {
        &self.headers
    }

    /// The delay before the response is sent, in seconds.
    pub fn delay(&self) -> (r: Option<u64>)
        ensures
            r == self@.delay,
    {
        self.delay
    }
}

} // verus!
