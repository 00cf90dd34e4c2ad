use crate::string_map::pairs_of;
use vstd::prelude::*;

verus! {

/// A request as it is handed to the transport.
#[derive(Debug, PartialEq, Eq)]
pub struct HttpRequest {
    pub method: String,
    pub url: String,
    /// Header names and values, in the order in which they are set.
    pub headers: Vec<(String, String)>,
    pub body: Vec<u8>,
}

/// What a request to the transport holds.
pub struct HttpRequestView {
    pub method: Seq<char>,
    pub url: Seq<char>,
    pub headers: Seq<(Seq<char>, Seq<char>)>,
    pub body: Seq<u8>,
}

impl View for HttpRequest {
    type V = HttpRequestView;

    open spec fn view(&self) -> HttpRequestView {
        HttpRequestView {
            method: self.method@,
            url: self.url@,
            headers: pairs_of(self.headers@),
            body: self.body@,
        }
    }
}

/// What came back from the transport: the answer of a server, or the bytes that a test
/// double was given to answer with.
#[derive(Debug, PartialEq, Eq)]
pub enum HttpCallerResponse {
    /// A server's answer: its status, the length that it announced for its body, if it
    /// announced one, and the body.
    Reqwest { status: u16, content_length: Option<u64>, body: Vec<u8> },
    /// The bytes of a test double.
    Raw(Vec<u8>),
}

impl HttpCallerResponse {
    /// The status of the answer; the bytes of a test double count as status 200.
    pub fn status(&self) -> (status: u16)
        ensures
            status == (match self {
                HttpCallerResponse::Reqwest { status, content_length, body } => *status,
                HttpCallerResponse::Raw(_) => 200u16,
            }),
    {
        match self {
            HttpCallerResponse::Reqwest { status, content_length, body } => *status,
            HttpCallerResponse::Raw(_) => 200,
        }
    }

    /// The length of the answer's body: what the server announced, if it announced a
    /// length; for the bytes of a test double, their number.
    pub fn content_length(&self) -> (length: Option<u64>)
        ensures
            length == (match self {
                HttpCallerResponse::Reqwest { status, content_length, body } => *content_length,
                HttpCallerResponse::Raw(data) => Some(data@.len() as u64),
            }),
    {
        match self {
            HttpCallerResponse::Reqwest { status, content_length, body } => *content_length,
            HttpCallerResponse::Raw(data) => Some(data.len() as u64),
        }
    }

    /// Turns an answer with a status from 400 to 599 into an error, which is the status;
    /// the bytes of a test double are never an error.
    pub fn error_for_status(self) -> (checked: Result<HttpCallerResponse, u16>)
        ensures
            checked == (match self {
                HttpCallerResponse::Reqwest { status, content_length, body } => if 400 <= status < 600 {
                    Err::<HttpCallerResponse, u16>(status)
                } else {
                    Ok(self)
                },
                HttpCallerResponse::Raw(_) => Ok(self),
            }),
    {
        match self {
            HttpCallerResponse::Reqwest { status, content_length, body } => if 400 <= status && status < 600 {
                Err(status)
            } else {
                Ok(HttpCallerResponse::Reqwest { status, content_length, body })
            },
            HttpCallerResponse::Raw(data) => Ok(HttpCallerResponse::Raw(data)),
        }
    }

    /// Like `error_for_status`, for an answer that is only looked at.
    pub fn error_for_status_ref(&self) -> (checked: Result<&HttpCallerResponse, u16>)
        ensures
            checked == (match self {
                HttpCallerResponse::Reqwest { status, content_length, body } => if 400 <= *status < 600 {
                    Err::<&HttpCallerResponse, u16>(*status)
                } else {
                    Ok(self)
                },
                HttpCallerResponse::Raw(_) => Ok(self),
            }),
    {
        match self {
            HttpCallerResponse::Reqwest { status, content_length, body } => if 400 <= *status && *status < 600 {
                Err(*status)
            } else {
                Ok(self)
            },
            HttpCallerResponse::Raw(_) => Ok(self),
        }
    }

    /// The answer's body.
    pub fn bytes(self) -> (body: Vec<u8>)
        ensures
            body == (match self {
                HttpCallerResponse::Reqwest { status, content_length, body } => body,
                HttpCallerResponse::Raw(data) => data,
            }),
    {
        match self {
            HttpCallerResponse::Reqwest { status, content_length, body } => body,
            HttpCallerResponse::Raw(data) => data,
        }
    }
}

/// The transport that sends requests over the network. Sending is the work of whoever
/// drives the library; this marks the choice.
#[derive(Clone, Copy, Debug, PartialEq, Eq, Structural)]
pub struct ActualHttpCaller;

/// A test double for the transport, which answers with the bytes it was given. In `init`
/// mode it stands for a proxy that answers a tunnel handshake, and the answer has to come
/// from a key exchange server.
#[derive(Debug, PartialEq, Eq)]
pub struct MockHttpCaller {
    pub data: Vec<u8>,
    pub init: bool,
}

impl MockHttpCaller {
    /// The canned answer to a request: the bytes the double was given, or `None` in
    /// `init` mode.
    pub fn send(&self, request: &HttpRequest) -> (answer: Option<HttpCallerResponse>)
        ensures
            self.init ==> answer is None,
            !self.init ==> (answer matches Some(HttpCallerResponse::Raw(data)) && data@
                == self.data@),
    {
        if self.init {
            None
        } else {
            let mut data: Vec<u8> = Vec::new();
            crate::text::append_bytes(&mut data, self.data.as_slice());
            Some(HttpCallerResponse::Raw(data))
        }
    }
}

} // verus!
