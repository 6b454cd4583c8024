//! HTTP requests and replies as plain values. The library builds the one and
//! reads the other; sending is left to its user.

use crate::error::Error;
use crate::toggl::{TimerReqEnvelope, TimerReqView};
use vstd::prelude::*;

verus! {

/// The method of a request.
#[derive(Debug, Clone, Copy, PartialEq, Eq, Structural)]
pub enum Method {
    Get,
    Post,
    Put,
}

/// One header line of a request.
#[derive(Debug, Clone, PartialEq, Eq)]
pub struct Header {
    pub name: String,
    pub value: String,
}

impl View for Header {
    type V = (Seq<char>, Seq<char>);

    open spec fn view(&self) -> (Seq<char>, Seq<char>) {
        (self.name@, self.value@)
    }
}

/// A request to the service. A body, where there is one, is sent as JSON.
#[derive(Debug, Clone, PartialEq, Eq)]
pub struct Request {
    pub method: Method,
    pub url: String,
    pub headers: Vec<Header>,
    pub body: Option<TimerReqEnvelope>,
}

/// A request, its texts as sequences of characters.
pub struct RequestView {
    pub method: Method,
    pub url: Seq<char>,
    pub headers: Seq<(Seq<char>, Seq<char>)>,
    pub body: Option<TimerReqView>,
}

impl View for Request {
    type V = RequestView;

    open spec fn view(&self) -> RequestView {
        RequestView {
            method: self.method,
            url: self.url@,
            headers: Seq::new(self.headers@.len(), |i: int| self.headers@[i]@),
            body: match self.body {
                Some(body) => Some(body@),
                None => None,
            },
        }
    }
}

/// The header that carries the credentials.
pub open spec fn authorization_header(value: Seq<char>) -> (Seq<char>, Seq<char>) {
    ("Authorization"@, value)
}

/// The header that announces a JSON body.
pub open spec fn json_header() -> (Seq<char>, Seq<char>) {
    ("Content-Type"@, "application/json"@)
}

/// The header that announces an empty body.
pub open spec fn empty_body_header() -> (Seq<char>, Seq<char>) {
    ("Content-Length"@, "0"@)
}

/// The `GET` request for `url` with the credentials `authorization`.
pub open spec fn get_view(url: Seq<char>, authorization: Seq<char>) -> RequestView {
    RequestView {
        method: Method::Get,
        url,
        headers: seq![authorization_header(authorization), json_header()],
        body: None,
    }
}

/// The `POST` request that sends `body` to `url`.
pub open spec fn post_view(url: Seq<char>, authorization: Seq<char>, body: TimerReqView) -> RequestView {
    RequestView {
        method: Method::Post,
        url,
        headers: seq![authorization_header(authorization)],
        body: Some(body),
    }
}

/// The `PUT` request for `url`, which has no body and says so.
pub open spec fn put_view(url: Seq<char>, authorization: Seq<char>) -> RequestView {
    RequestView {
        method: Method::Put,
        url,
        headers: seq![authorization_header(authorization), json_header(), empty_body_header()],
        body: None,
    }
}

fn header(name: &str, value: String) -> (r: Header)
    ensures
        r@ == (name@, value@),
{
    Header { name: name.to_owned(), value }
}

impl Request {
    /// The `GET` request for `url` with the credentials `authorization`.
    pub fn get(url: String, authorization: String) -> (r: Request)
        ensures
            r@ == get_view(url@, authorization@),
    {
        let mut headers: Vec<Header> = Vec::new();
        headers.push(header("Authorization", authorization));
        headers.push(header("Content-Type", "application/json".to_owned()));
        let r = Request { method: Method::Get, url, headers, body: None };
        assert(r@.headers =~= get_view(url@, authorization@).headers);
        r
    }

    /// The `POST` request that sends `body` to `url`.
    pub fn post(url: String, authorization: String, body: TimerReqEnvelope) -> (r: Request)
        ensures
            r@ == post_view(url@, authorization@, body@),
    {
        let mut headers: Vec<Header> = Vec::new();
        headers.push(header("Authorization", authorization));
        let r = Request { method: Method::Post, url, headers, body: Some(body) };
        assert(r@.headers =~= post_view(url@, authorization@, body@).headers);
        r
    }

    /// The `PUT` request for `url`.
    pub fn put(url: String, authorization: String) -> (r: Request)
        ensures
            r@ == put_view(url@, authorization@),
    {
        let mut headers: Vec<Header> = Vec::new();
        headers.push(header("Authorization", authorization));
        headers.push(header("Content-Type", "application/json".to_owned()));
        headers.push(header("Content-Length", "0".to_owned()));
        let r = Request { method: Method::Put, url, headers, body: None };
        assert(r@.headers =~= put_view(url@, authorization@).headers);
        r
    }
}

/// What came of sending a request.
#[derive(Debug, Clone, PartialEq, Eq)]
pub enum Reply<T> {
    /// The service answered with success. The body is there where it could
    /// be decoded.
    Body(Option<T>),
    /// The service answered with an error status.
    Status { status: u16, url: String },
    /// No answer arrived.
    Transport(String),
}

/// What a reply amounts to: the decoded body, or the failure.
pub open spec fn reply_outcome<T>(reply: Reply<T>) -> Result<Option<T>, Error> {
    match reply {
        Reply::Body(body) => Ok(body),
        Reply::Status { status, url } => Err(Error::Status { status, url }),
        Reply::Transport(message) => Err(Error::Transport(message)),
    }
}

/// Reads a reply: the decoded body, or the failure.
pub fn read_reply<T>(reply: Reply<T>) -> (r: Result<Option<T>, Error>)
    ensures
        r == reply_outcome(reply),
{
    match reply {
        Reply::Body(body) => Ok(body),
        Reply::Status { status, url } => Err(Error::Status { status, url }),
        Reply::Transport(message) => Err(Error::Transport(message)),
    }
}

/// Reads a reply whose body does not matter: success, or the failure.
pub fn check_reply<T>(reply: Reply<T>) -> (r: Result<(), Error>)
    ensures
        match r {
            Ok(_) => reply_outcome(reply) is Ok,
            Err(e) => reply_outcome(reply) == Err::<Option<T>, Error>(e),
        },
{
    match reply {
        Reply::Body(_) => Ok(()),
        Reply::Status { status, url } => Err(Error::Status { status, url }),
        Reply::Transport(message) => Err(Error::Transport(message)),
    }
}

} // verus!
