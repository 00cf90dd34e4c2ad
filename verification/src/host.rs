use crate::formdata::FormData;
use vstd::prelude::*;

verus! {

/// How a request treats other origins.
#[derive(Clone, Copy, Debug, PartialEq, Eq, Structural)]
pub enum L8RequestMode {
    /// Requests to another origin are an error.
    SameOrigin,
    /// Requests to another origin get an opaque response.
    NoCors,
    /// Requests to another origin use cross-origin resource sharing.
    Cors,
    /// The request is a navigation between documents.
    Navigate,
}

/// How much of the referrer a request discloses.
#[derive(Clone, Copy, Debug, PartialEq, Eq, Structural)]
pub enum ReferrerPolicy {
    /// The policy that is written as the empty text.
    Unset,
    NoReferrer,
    NoReferrerWhenDowngrade,
    Origin,
    OriginWhenCrossOrigin,
    UnsafeUrl,
    SameOrigin,
    StrictOrigin,
    StrictOriginWhenCrossOrigin,
}

/// A body as the caller handed it over, by its kind. A stream, and what is read as a
/// stream, is the sequence of chunks that reading it yields.
pub enum JsBody {
    /// A text.
    Text(String),
    /// A buffer of bytes.
    ArrayBuffer(Vec<u8>),
    /// A view on a buffer: the bytes that the view shows, which may be a part of the
    /// buffer.
    DataView(Vec<u8>),
    /// A blob, as its stream.
    Blob(Vec<Vec<u8>>),
    /// A file, as its stream.
    File(Vec<Vec<u8>>),
    /// Search parameters: names and values, in order.
    UrlSearchParams(Vec<(String, String)>),
    /// A form.
    FormData(FormData),
    /// A stream.
    ReadableStream(Vec<Vec<u8>>),
    /// Any other object, as the text it converts to.
    Object(String),
    /// A value that is no object.
    Other,
}

/// One header as the caller handed it over: the name, if it is a text, and the value as a
/// JSON document, if it has one.
pub struct JsHeader {
    pub name: Option<String>,
    pub value: Option<String>,
}

/// Headers as the caller handed them over, by their kind.
pub enum JsHeaders {
    /// Nothing was given.
    Absent,
    /// A headers object: its entries in order.
    Headers(Vec<JsHeader>),
    /// A plain object: its own entries in order.
    Object(Vec<JsHeader>),
    /// A value that is no object.
    Other,
}

/// A request object as the caller handed it over.
pub struct JsRequest {
    pub url: String,
    pub method: String,
    pub headers: JsHeaders,
    /// The chunks of the body's stream, where the request has a body.
    pub body: Option<Vec<Vec<u8>>>,
}

/// What is to be fetched, by its kind.
pub enum Resource {
    /// A text that names a URL.
    Text(String),
    /// A URL object, as the text it converts to.
    Url(String),
    /// A request object.
    Request(JsRequest),
    /// Anything else.
    Other,
}

/// The options of a call, each as far as the caller gave it.
pub struct RequestOptions {
    pub method: Option<String>,
    pub body: Option<JsBody>,
    pub headers: JsHeaders,
    pub cache: Option<String>,
    pub credentials: Option<String>,
    pub destination: Option<String>,
    pub integrity: Option<String>,
    pub is_history_navigation: Option<bool>,
    pub keepalive: Option<bool>,
    pub mode: Option<L8RequestMode>,
    pub redirect: Option<String>,
    pub referrer_policy: Option<ReferrerPolicy>,
    pub referrer: Option<String>,
    /// The abort signal, by the number under which the caller keeps it.
    pub signal: Option<u64>,
}

impl ReferrerPolicy {
    /// The policy as it is written in a header.
    pub open spec fn text(&self) -> Seq<char> {
        match self {
            ReferrerPolicy::Unset => ""@,
            ReferrerPolicy::NoReferrer => "no-referrer"@,
            ReferrerPolicy::NoReferrerWhenDowngrade => "no-referrer-when-downgrade"@,
            ReferrerPolicy::Origin => "origin"@,
            ReferrerPolicy::OriginWhenCrossOrigin => "origin-when-cross-origin"@,
            ReferrerPolicy::UnsafeUrl => "unsafe-url"@,
            ReferrerPolicy::SameOrigin => "same-origin"@,
            ReferrerPolicy::StrictOrigin => "strict-origin"@,
            ReferrerPolicy::StrictOriginWhenCrossOrigin => "strict-origin-when-cross-origin"@,
        }
    }

    /// The policy as it is written in a header.
    pub fn as_str(&self) -> (text: &'static str)
        ensures
            text@ == self.text(),
    {
        match self {
            ReferrerPolicy::Unset => "",
            ReferrerPolicy::NoReferrer => "no-referrer",
            ReferrerPolicy::NoReferrerWhenDowngrade => "no-referrer-when-downgrade",
            ReferrerPolicy::Origin => "origin",
            ReferrerPolicy::OriginWhenCrossOrigin => "origin-when-cross-origin",
            ReferrerPolicy::UnsafeUrl => "unsafe-url",
            ReferrerPolicy::SameOrigin => "same-origin",
            ReferrerPolicy::StrictOrigin => "strict-origin",
            ReferrerPolicy::StrictOriginWhenCrossOrigin => "strict-origin-when-cross-origin",
        }
    }
}

/// The referrer policy of the options as a text: empty where none was given.
pub open spec fn referrer_policy_text(options: &RequestOptions) -> Seq<char> {
    match options.referrer_policy {
        Some(policy) => policy.text(),
        None => ""@,
    }
}

/// The referrer policy that the options ask for, as it is written in a header; the empty
/// text where they ask for none.
pub fn get_request_referer_policy(options: &RequestOptions) -> (text: &'static str)
    ensures
        text@ == referrer_policy_text(options),
{
    match options.referrer_policy {
        Some(policy) => policy.as_str(),
        None => "",
    }
}

impl L8RequestMode {
    /// The mode that the options ask for, which is `Cors` where they name none.
    pub fn from_request_options(options: &RequestOptions) -> (mode: Option<L8RequestMode>)
        ensures
            mode == Some(
                match options.mode {
                    Some(given) => given,
                    None => L8RequestMode::Cors,
                },
            ),
    {
        match options.mode {
            Some(given) => Some(given),
            None => Some(L8RequestMode::Cors),
        }
    }
}

impl RequestOptions {
    /// Options in which nothing is given.
    pub fn new() -> (options: RequestOptions)
        ensures
            options.method is None,
            options.body is None,
            options.headers is Absent,
            options.cache is None,
            options.credentials is None,
            options.destination is None,
            options.integrity is None,
            options.is_history_navigation is None,
            options.keepalive is None,
            options.mode is None,
            options.redirect is None,
            options.referrer_policy is None,
            options.referrer is None,
            options.signal is None,
    {
        RequestOptions {
            method: None,
            body: None,
            headers: JsHeaders::Absent,
            cache: None,
            credentials: None,
            destination: None,
            integrity: None,
            is_history_navigation: None,
            keepalive: None,
            mode: None,
            redirect: None,
            referrer_policy: None,
            referrer: None,
            signal: None,
        }
    }
}

} // verus!
