use crate::body::{headers_of, headers_to_reqwest_headers, readable_stream_to_bytes, L8BodyType};
use crate::error::L8Error;
use crate::formdata::{body_bytes, joined, parse_form_data_to_array};
use crate::host::{
    get_request_referer_policy, referrer_policy_text, JsBody, JsRequest, L8RequestMode,
    RequestOptions, Resource,
};
use crate::json::{
    append_header_members, header_members, json_bytes, json_of_bytes, json_of_text, json_text,
};
use crate::resource::{get_uri, uri_of, url_parses};
use crate::string_map::{
    extended, inserted, keys_distinct, lemma_extended_distinct, pairs_of, StringMap,
};
use crate::text::{
    append_bytes, append_text, push_text, to_uppercase, trim, trimmed, uppercased, utf8,
};
use vstd::prelude::*;

verus! {

/// A request as it goes through the tunnel: where it goes, how, with which headers and
/// which body, and what the caller asked of the user agent besides.
#[derive(Debug, PartialEq, Eq)]
pub struct L8RequestObject {
    /// Path and query.
    pub uri: String,
    pub method: String,
    /// Header names and, for each, the value as a JSON document.
    pub headers: StringMap,
    pub body: Vec<u8>,
    pub body_used: bool,
    pub cache: String,
    pub credentials: String,
    pub destination: String,
    pub integrity: String,
    pub is_history_navigation: bool,
    pub keep_alive: Option<bool>,
    pub mode: Option<L8RequestMode>,
    pub redirect: Option<String>,
    /// The abort signal, by the number under which the caller keeps it.
    pub signal: Option<u64>,
}

/// What a request holds.
pub struct RequestView {
    pub uri: Seq<char>,
    pub method: Seq<char>,
    pub headers: Seq<(Seq<char>, Seq<char>)>,
    pub body: Seq<u8>,
    pub body_used: bool,
    pub cache: Seq<char>,
    pub credentials: Seq<char>,
    pub destination: Seq<char>,
    pub integrity: Seq<char>,
    pub is_history_navigation: bool,
    pub keep_alive: Option<bool>,
    pub mode: Option<L8RequestMode>,
    pub redirect: Option<Seq<char>>,
    pub signal: Option<u64>,
}

impl View for L8RequestObject {
    type V = RequestView;

    open spec fn view(&self) -> RequestView {
        RequestView {
            uri: self.uri@,
            method: self.method@,
            headers: self.headers@,
            body: self.body@,
            body_used: self.body_used,
            cache: self.cache@,
            credentials: self.credentials@,
            destination: self.destination@,
            integrity: self.integrity@,
            is_history_navigation: self.is_history_navigation,
            keep_alive: self.keep_alive,
            mode: self.mode,
            redirect: match self.redirect {
                Some(text) => Some(text@),
                None => None,
            },
            signal: self.signal,
        }
    }
}

/// A request for `uri` in which nothing else is set.
pub open spec fn blank(uri: Seq<char>) -> RequestView {
    RequestView {
        uri: uri,
        method: Seq::empty(),
        headers: Seq::empty(),
        body: Seq::empty(),
        body_used: false,
        cache: Seq::empty(),
        credentials: Seq::empty(),
        destination: Seq::empty(),
        integrity: Seq::empty(),
        is_history_navigation: false,
        keep_alive: None,
        mode: None,
        redirect: None,
        signal: None,
    }
}

/// The text that was given, or the default.
pub open spec fn text_or(given: Option<String>, default: Seq<char>) -> Seq<char> {
    match given {
        Some(text) => text@,
        None => default,
    }
}

/// The headers after the referrer policy and the referrer of the options were added: the
/// policy where it is not empty, the referrer where one is given and the policy is not
/// `no-referrer`.
pub open spec fn with_referrer(
    headers: Seq<(Seq<char>, Seq<char>)>,
    options: &RequestOptions,
) -> Seq<(Seq<char>, Seq<char>)> {
    let policy = referrer_policy_text(options);
    let named = if policy.len() > 0 {
        inserted(headers, "Referrer-Policy"@, json_of_text(policy))
    } else {
        headers
    };
    match options.referrer {
        Some(referrer) => if policy != "no-referrer"@ {
            inserted(named, "Referrer"@, json_of_text(referrer@))
        } else {
            named
        },
        None => named,
    }
}

/// A request after the options' properties were mirrored onto it.
pub open spec fn with_properties(request: RequestView, options: &RequestOptions) -> RequestView {
    RequestView {
        uri: request.uri,
        method: request.method,
        headers: with_referrer(request.headers, options),
        body: request.body,
        body_used: false,
        cache: text_or(options.cache, "default"@),
        credentials: text_or(options.credentials, "same-origin"@),
        destination: text_or(options.destination, ""@),
        integrity: text_or(options.integrity, ""@),
        is_history_navigation: match options.is_history_navigation {
            Some(flag) => flag,
            None => false,
        },
        keep_alive: match options.keepalive {
            Some(flag) => Some(flag),
            None => request.keep_alive,
        },
        mode: Some(
            match options.mode {
                Some(mode) => mode,
                None => L8RequestMode::Cors,
            },
        ),
        redirect: Some(text_or(options.redirect, "follow"@)),
        signal: options.signal,
    }
}

/// The method that the options ask for, trimmed and in upper case; `GET` where they name
/// none.
pub open spec fn method_of(options: &RequestOptions) -> Seq<char> {
    match options.method {
        Some(method) => uppercased(trimmed(method@)),
        None => "GET"@,
    }
}

/// The first `n` parameters as a query: `name=value`, with `&` between them.
pub open spec fn query_string(pairs: Seq<(Seq<char>, Seq<char>)>, n: int) -> Seq<char>
    decreases n,
{
    if n <= 0 {
        Seq::empty()
    } else if n == 1 {
        pairs[0].0 + "="@ + pairs[0].1
    } else {
        query_string(pairs, n - 1) + "&"@ + pairs[n - 1].0 + "="@ + pairs[n - 1].1
    }
}

/// The content type of a multipart body with the given boundary.
pub open spec fn multipart_type(boundary: Seq<char>) -> Seq<char> {
    "multipart/form-data; boundary="@ + boundary
}

/// A request after a body was put into it, or `None` where the body is refused. Bytes of
/// every kind become the body; parameters become the query; a form becomes a multipart
/// body with the given boundary, and its content type a header.
pub open spec fn with_body(request: RequestView, body: &JsBody, boundary: Seq<char>) -> Option<
    RequestView,
> {
    match body {
        JsBody::Text(text) => Some(RequestView { body: utf8(text@), ..request }),
        JsBody::ArrayBuffer(buffer) => Some(RequestView { body: buffer@, ..request }),
        JsBody::DataView(buffer) => Some(RequestView { body: buffer@, ..request }),
        JsBody::Blob(chunks) => Some(
            RequestView { body: joined(chunks@, chunks@.len() as int), ..request },
        ),
        JsBody::File(chunks) => Some(
            RequestView { body: joined(chunks@, chunks@.len() as int), ..request },
        ),
        JsBody::UrlSearchParams(pairs) => {
            let params = extended(Seq::empty(), pairs_of(pairs@), pairs@.len() as int);
            Some(
                RequestView {
                    uri: request.uri + "?"@ + query_string(params, params.len() as int),
                    ..request
                },
            )
        },
        JsBody::FormData(form) => Some(
            RequestView {
                headers: inserted(
                    request.headers,
                    "Content-Type"@,
                    json_of_text(multipart_type(boundary)),
                ),
                body: body_bytes(boundary, form.entries@),
                ..request
            },
        ),
        JsBody::ReadableStream(chunks) => Some(
            RequestView { body: joined(chunks@, chunks@.len() as int), ..request },
        ),
        JsBody::Object(text) => Some(RequestView { body: utf8(text@), ..request }),
        JsBody::Other => None,
    }
}

/// The request that a URI and options make, with the given boundary for a form.
pub open spec fn from_options(uri: Seq<char>, options: &RequestOptions, boundary: Seq<char>) -> Result<
    RequestView,
    L8Error,
> {
    let started = RequestView { method: method_of(options), ..blank(uri) };
    let filled = match options.body {
        None => Some(started),
        Some(body) => with_body(started, &body, boundary),
    };
    match filled {
        None => Err(L8Error::InvalidBody),
        Some(request) => match headers_of(&options.headers) {
            None => Err(L8Error::InvalidHeaders),
            Some(more) => Ok(
                with_properties(
                    RequestView {
                        headers: extended(request.headers, more, more.len() as int),
                        ..request
                    },
                    options,
                ),
            ),
        },
    }
}

/// The request that a request object makes for a URI.
pub open spec fn from_request(uri: Seq<char>, request: &JsRequest) -> Result<
    RequestView,
    L8Error,
> {
    match headers_of(&request.headers) {
        None => Err(L8Error::InvalidHeaders),
        Some(headers) => Ok(
            RequestView {
                method: uppercased(trimmed(request.method@)),
                body: match request.body {
                    Some(chunks) => joined(chunks@, chunks@.len() as int),
                    None => Seq::empty(),
                },
                headers: headers,
                mode: Some(L8RequestMode::Cors),
                ..blank(uri)
            },
        ),
    }
}

/// The request that a call stands for, with the given boundary for a form: refused where
/// `backend_url` is no absolute URL, and where the resource is neither a text, a URL nor
/// a request object; made from the request object where the resource is one; a plain
/// `GET` for the URL's path and query where there are no options; and made from the
/// options otherwise.
pub open spec fn normalized(
    backend_url: Seq<char>,
    resource: &Resource,
    options: Option<RequestOptions>,
    boundary: Seq<char>,
) -> Result<RequestView, L8Error> {
    if !url_parses(backend_url) {
        Err(L8Error::InvalidResource)
    } else {
        match resource {
            Resource::Other => Err(L8Error::InvalidResource),
            Resource::Request(request) => from_request(uri_of(backend_url), request),
            _ => match options {
                None => Ok(RequestView { method: "GET"@, ..blank(uri_of(backend_url)) }),
                Some(given) => from_options(uri_of(backend_url), &given, boundary),
            },
        }
    }
}

/// `uuid::Uuid::new_v4`, written out with `to_string`: a fresh random identifier as a
/// text. Nothing is claimed of the text, which differs from call to call.
#[verifier::external_body]
pub(crate) fn new_boundary() -> (boundary: String) {
    ::uuid::Uuid::new_v4().to_string()
}

impl Default for L8RequestObject {
    fn default() -> (request: L8RequestObject)
        ensures
            request@ == blank(Seq::empty()),
    {
        let request = L8RequestObject {
            uri: String::new(),
            method: String::new(),
            headers: StringMap::new(),
            body: Vec::new(),
            body_used: false,
            cache: String::new(),
            credentials: String::new(),
            destination: String::new(),
            integrity: String::new(),
            is_history_navigation: false,
            keep_alive: None,
            mode: None,
            redirect: None,
            signal: None,
        };
        assert(request@ =~= blank(Seq::empty()));
        request
    }
}

/// The text that was given, or the default.
fn given_or(given: &Option<String>, default: &str) -> (text: String)
    ensures
        text@ == text_or(*given, default@),
{
    match given {
        Some(text) => text.clone(),
        None => default.to_owned(),
    }
}

impl L8RequestObject {
    /// A request for `uri` in which nothing else is set.
    fn blank(uri: String) -> (request: L8RequestObject)
        ensures
            request@ == blank(uri@),
    {
        let mut request = L8RequestObject::default();
        request.uri = uri;
        request
    }

    /// Mirrors what the options say of the user agent onto the request: cache mode,
    /// credentials, destination, integrity, history navigation, keep-alive, mode and
    /// redirect, each with its default; the referrer policy and the referrer as headers;
    /// and the abort signal.
    pub fn add_properties(&mut self, options: &RequestOptions)
        ensures
            final(self)@ == with_properties(old(self)@, options),
    {
        self.body_used = false;
        self.cache = given_or(&options.cache, "default");
        self.credentials = given_or(&options.credentials, "same-origin");
        self.destination = given_or(&options.destination, "");
        self.integrity = given_or(&options.integrity, "");
        self.is_history_navigation = match options.is_history_navigation {
            Some(flag) => flag,
            None => false,
        };
        match options.keepalive {
            Some(flag) => {
                self.keep_alive = Some(flag);
            },
            None => {},
        }
        self.mode = L8RequestMode::from_request_options(options);
        self.redirect = Some(given_or(&options.redirect, "follow"));
        let policy = get_request_referer_policy(options);
        if !policy.is_empty() {
            self.headers.insert("Referrer-Policy".to_owned(), json_text(policy));
        }
        let policy_text = policy.to_owned();
        let no_referrer = "no-referrer".to_owned();
        if policy_text != no_referrer {
            match &options.referrer {
                Some(referrer) => {
                    self.headers.insert("Referrer".to_owned(), json_text(referrer.as_str()));
                },
                None => {},
            }
        }
        self.signal = options.signal;
    }

    /// Appends the parameters to the URI as its query.
    fn append_query(&mut self, params: &StringMap)
        ensures
            final(self)@ == (RequestView {
                uri: old(self)@.uri + "?"@ + query_string(params@, params@.len() as int),
                ..old(self)@
            }),
    {
        let ghost before = self.uri@;
        push_text(&mut self.uri, "?");
        let ghost base = self.uri@;
        let mut i: usize = 0;
        assert(self.uri@ =~= base + query_string(params@, 0));
        while i < params.len()
            invariant
                i <= params@.len(),
                self.uri@ == base + query_string(params@, i as int),
                self@ == (RequestView { uri: self.uri@, ..old(self)@ }),
            decreases params@.len() - i,
        {
            if i > 0 {
                push_text(&mut self.uri, "&");
            }
            push_text(&mut self.uri, params.key_at(i).as_str());
            push_text(&mut self.uri, "=");
            push_text(&mut self.uri, params.value_at(i).as_str());
            assert(self.uri@ =~= base + query_string(params@, i + 1));
            i = i + 1;
        }
        assert(self.uri@ =~= before + "?"@ + query_string(params@, params@.len() as int));
    }

    /// Puts a body into the request, and says whether the body could be taken.
    fn put_body(&mut self, body: JsBody, boundary: &str) -> (taken: bool)
        ensures
            match with_body(old(self)@, &body, boundary@) {
                Some(view) => taken && final(self)@ == view,
                None => !taken,
            },
    {
        match L8BodyType::from_jsvalue(body) {
            Err(_) => false,
            Ok(L8BodyType::Bytes(bytes)) => {
                self.body = bytes;
                true
            },
            Ok(L8BodyType::Params(params)) => {
                self.append_query(&params);
                true
            },
            Ok(L8BodyType::FormData(form)) => {
                let data = parse_form_data_to_array(&form, boundary);
                let mut content_type = "multipart/form-data; boundary=".to_owned();
                push_text(&mut content_type, boundary);
                self.headers.insert("Content-Type".to_owned(), json_text(content_type.as_str()));
                self.body = data;
                true
            },
            Ok(L8BodyType::File(bytes)) => {
                self.body = bytes;
                true
            },
            Ok(L8BodyType::Stream(chunks)) => {
                self.body = readable_stream_to_bytes(&chunks);
                true
            },
        }
    }

    /// Makes the request for a URI and options, with the given boundary for a form. A
    /// body or headers of a shape that cannot be sent are refused.
    pub fn from_request_options_with_boundary(
        uri: String,
        options: RequestOptions,
        boundary: &str,
    ) -> (made: Result<L8RequestObject, L8Error>)
        ensures
            match from_options(uri@, &options, boundary@) {
                Ok(view) => made matches Ok(request) && request@ == view,
                Err(why) => made == Err::<L8RequestObject, L8Error>(why),
            },
    {
        let mut request = L8RequestObject::blank(uri);
        request.method = match &options.method {
            Some(method) => to_uppercase(trim(method.as_str())),
            None => "GET".to_owned(),
        };
        let properties = RequestOptions {
            method: None,
            body: None,
            headers: options.headers,
            cache: options.cache,
            credentials: options.credentials,
            destination: options.destination,
            integrity: options.integrity,
            is_history_navigation: options.is_history_navigation,
            keepalive: options.keepalive,
            mode: options.mode,
            redirect: options.redirect,
            referrer_policy: options.referrer_policy,
            referrer: options.referrer,
            signal: options.signal,
        };
        match options.body {
            None => {},
            Some(body) => {
                if !request.put_body(body, boundary) {
                    return Err(L8Error::InvalidBody);
                }
            },
        }
        match headers_to_reqwest_headers(&properties.headers) {
            Err(_) => {
                return Err(L8Error::InvalidHeaders);
            },
            Ok(more) => {
                request.headers.extend(&more);
            },
        }
        let ghost filled = request@;
        request.add_properties(&properties);
        assert(with_properties(filled, &properties) == with_properties(filled, &options));
        Ok(request)
    }

    /// Makes the request for a URI and options. A form is encoded with a fresh random
    /// boundary; in every other case the request does not depend on the boundary.
    pub fn from_request_options(uri: String, options: RequestOptions) -> (made: Result<
        L8RequestObject,
        L8Error,
    >)
        ensures
            exists|boundary: Seq<char>|
                match #[trigger] from_options(uri@, &options, boundary) {
                    Ok(view) => made matches Ok(request) && request@ == view,
                    Err(why) => made == Err::<L8RequestObject, L8Error>(why),
                },
    {
        let boundary = new_boundary();
        let made = L8RequestObject::from_request_options_with_boundary(
            uri,
            options,
            boundary.as_str(),
        );
        assert(match from_options(uri@, &options, boundary@) {
            Ok(view) => made matches Ok(request) && request@ == view,
            Err(why) => made == Err::<L8RequestObject, L8Error>(why),
        });
        made
    }

    /// Makes the request for a URI from a request object: its method, trimmed and in upper
    /// case, its headers, its body read to the end, and the mode `Cors`.
    pub fn from_web_sys_request_object(uri: String, request: &JsRequest) -> (made: Result<
        L8RequestObject,
        L8Error,
    >)
        ensures
            match from_request(uri@, request) {
                Ok(view) => made matches Ok(request) && request@ == view,
                Err(why) => made == Err::<L8RequestObject, L8Error>(why),
            },
    {
        let mut made = L8RequestObject::blank(uri);
        made.method = to_uppercase(trim(request.method.as_str()));
        match &request.body {
            Some(chunks) => {
                made.body = readable_stream_to_bytes(chunks);
            },
            None => {},
        }
        match headers_to_reqwest_headers(&request.headers) {
            Err(_) => {
                return Err(L8Error::InvalidHeaders);
            },
            Ok(headers) => {
                made.headers = headers;
            },
        }
        made.mode = Some(L8RequestMode::Cors);
        Ok(made)
    }

    /// Makes the request that a call stands for, with the given boundary for a form. The
    /// URI is the path and query of `backend_url`, which must be an absolute URL. A request
    /// object gives method, headers and body itself; for a text and a URL the options do,
    /// and without options the request is a plain `GET` with no headers and no body. Any
    /// other resource is refused.
    pub fn new_with_boundary(
        backend_url: &str,
        resource: &Resource,
        options: Option<RequestOptions>,
        boundary: &str,
    ) -> (made: Result<L8RequestObject, L8Error>)
        ensures
            match normalized(backend_url@, resource, options, boundary@) {
                Ok(view) => made matches Ok(request) && request@ == view,
                Err(why) => made == Err::<L8RequestObject, L8Error>(why),
            },
    {
        let uri = match get_uri(backend_url) {
            Ok(uri) => uri,
            Err(_) => {
                return Err(L8Error::InvalidResource);
            },
        };
        match resource {
            Resource::Other => Err(L8Error::InvalidResource),
            Resource::Request(request) => L8RequestObject::from_web_sys_request_object(
                uri,
                request,
            ),
            _ => match options {
                None => {
                    let mut request = L8RequestObject::blank(uri);
                    request.method = "GET".to_owned();
                    Ok(request)
                },
                Some(given) => L8RequestObject::from_request_options_with_boundary(
                    uri,
                    given,
                    boundary,
                ),
            },
        }
    }

    /// Makes the request that a call stands for. A form is encoded with a fresh random
    /// boundary; in every other case the request does not depend on the boundary.
    pub fn new(backend_url: &str, resource: &Resource, options: Option<RequestOptions>) -> (made:
        Result<L8RequestObject, L8Error>)
        ensures
            exists|boundary: Seq<char>|
                match #[trigger] normalized(backend_url@, resource, options, boundary) {
                    Ok(view) => made matches Ok(request) && request@ == view,
                    Err(why) => made == Err::<L8RequestObject, L8Error>(why),
                },
    {
        let boundary = new_boundary();
        let made = L8RequestObject::new_with_boundary(
            backend_url,
            resource,
            options,
            boundary.as_str(),
        );
        assert(match normalized(backend_url@, resource, options, boundary@) {
            Ok(view) => made matches Ok(request) && request@ == view,
            Err(why) => made == Err::<L8RequestObject, L8Error>(why),
        });
        made
    }

    /// The request as the JSON object that is sealed for the tunnel: the members `uri`,
    /// `method`, `headers` and `body`, in this order.
    pub open spec fn json(&self) -> Seq<u8> {
        utf8("{\"uri\":"@) + utf8(json_of_text(self.uri@)) + utf8(",\"method\":"@) + utf8(
            json_of_text(self.method@),
        ) + utf8(",\"headers\":{"@) + header_members(self.headers@, self.headers@.len() as int)
            + utf8("},\"body\":"@) + json_of_bytes(self.body@) + utf8("}"@)
    }

    /// The request as the JSON object that is sealed for the tunnel.
    pub fn to_json(&self) -> (json: Vec<u8>)
        ensures
            json@ == self.json(),
    {
        let mut json: Vec<u8> = Vec::new();
        let uri = json_text(self.uri.as_str());
        let method = json_text(self.method.as_str());
        let body = json_bytes(self.body.as_slice());
        append_text(&mut json, "{\"uri\":");
        append_text(&mut json, uri.as_str());
        append_text(&mut json, ",\"method\":");
        append_text(&mut json, method.as_str());
        append_text(&mut json, ",\"headers\":{");
        append_header_members(&mut json, &self.headers);
        append_text(&mut json, "},\"body\":");
        append_bytes(&mut json, body.as_slice());
        append_text(&mut json, "}");
        assert(json@ =~= self.json());
        json
    }
}

/// The URL that a resource names. A text and a request object must name an absolute URL;
/// a URL object is taken as it is. Anything else is refused.
pub fn retrieve_resource_url(resource: &Resource) -> (url: Result<String, L8Error>)
    ensures
        match resource {
            Resource::Text(text) => if text@.len() > 0 && url_parses(text@) {
                url matches Ok(found) && found@ == text@
            } else {
                url == Err::<String, L8Error>(L8Error::InvalidResource)
            },
            Resource::Url(text) => url matches Ok(found) && found@ == text@,
            Resource::Request(request) => if request.url@.len() > 0 && url_parses(request.url@) {
                url matches Ok(found) && found@ == request.url@
            } else {
                url == Err::<String, L8Error>(L8Error::InvalidResource)
            },
            Resource::Other => url == Err::<String, L8Error>(L8Error::InvalidResource),
        },
{
    let named = match resource {
        Resource::Text(text) => text,
        Resource::Url(text) => {
            return Ok(text.clone());
        },
        Resource::Request(request) => &request.url,
        Resource::Other => {
            return Err(L8Error::InvalidResource);
        },
    };
    if named.as_str().is_empty() {
        return Err(L8Error::InvalidResource);
    }
    match get_uri(named.as_str()) {
        Ok(_) => Ok(named.clone()),
        Err(_) => Err(L8Error::InvalidResource),
    }
}

/// Without options a call is a plain `GET`: for every resource that is a text or a URL
/// and every URL that can be fetched, the request has the method `GET`, no headers and no
/// body.
pub proof fn lemma_no_options_is_plain_get(
    backend_url: Seq<char>,
    resource: &Resource,
    boundary: Seq<char>,
)
    requires
        url_parses(backend_url),
        resource is Text || resource is Url,
    ensures
        normalized(backend_url, resource, None, boundary) matches Ok(request) && request.method
            == "GET"@ && request.headers.len() == 0 && request.body.len() == 0 && request.uri
            == uri_of(backend_url),
{
}

/// A body of bytes arrives as it was given: a text and the text of an object as their
/// UTF-8 bytes, a buffer and a view byte for byte, and a blob, a file and a stream as
/// their chunks one behind the other. The URI stays as it was.
pub proof fn lemma_body_bytes_arrive(
    uri: Seq<char>,
    options: &RequestOptions,
    boundary: Seq<char>,
)
    requires
        headers_of(&options.headers) is Some,
        options.body matches Some(body) && !(body is UrlSearchParams) && !(body is FormData)
            && !(body is Other),
    ensures
        from_options(uri, options, boundary) matches Ok(request) && request.uri == uri
            && request.body == (match options.body->0 {
            JsBody::Text(text) => utf8(text@),
            JsBody::Object(text) => utf8(text@),
            JsBody::ArrayBuffer(buffer) => buffer@,
            JsBody::DataView(buffer) => buffer@,
            JsBody::Blob(chunks) => joined(chunks@, chunks@.len() as int),
            JsBody::File(chunks) => joined(chunks@, chunks@.len() as int),
            JsBody::ReadableStream(chunks) => joined(chunks@, chunks@.len() as int),
            _ => Seq::empty(),
        }),
{
}

/// Search parameters arrive in the query: where no name comes twice, the URI ends with
/// `?` and every parameter as `name=value`, in the order given and with `&` between them,
/// and the body is empty.
pub proof fn lemma_params_arrive_in_query(
    uri: Seq<char>,
    options: &RequestOptions,
    boundary: Seq<char>,
)
    requires
        headers_of(&options.headers) is Some,
        options.body matches Some(JsBody::UrlSearchParams(pairs)) && keys_distinct(
            pairs_of(pairs@),
        ),
    ensures
        from_options(uri, options, boundary) matches Ok(request) && request.body.len() == 0 && (
        options.body matches Some(JsBody::UrlSearchParams(pairs)) && request.uri == uri + "?"@
            + query_string(pairs_of(pairs@), pairs@.len() as int)),
{
    match options.body {
        Some(JsBody::UrlSearchParams(pairs)) => {
            let given = pairs_of(pairs@);
            lemma_extended_distinct(given, given.len() as int);
            assert(given.subrange(0, given.len() as int) =~= given);
        },
        _ => {},
    }
}

/// A form arrives as a multipart body: the body is the form's encoding with the
/// boundary, and the `Content-Type` header names that boundary unless the caller's own
/// headers or properties set the header anew.
pub proof fn lemma_form_arrives_as_multipart(
    uri: Seq<char>,
    options: &RequestOptions,
    boundary: Seq<char>,
)
    requires
        headers_of(&options.headers) == Some(Seq::<(Seq<char>, Seq<char>)>::empty()),
        options.referrer_policy is None,
        options.referrer is None,
        options.body matches Some(JsBody::FormData(form)),
    ensures
        from_options(uri, options, boundary) matches Ok(request) && request.uri == uri
            && request.headers == seq![
            ("Content-Type"@, json_of_text(multipart_type(boundary))),
        ] && (options.body matches Some(JsBody::FormData(form)) && request.body == body_bytes(
            boundary,
            form.entries@,
        )),
{
    reveal_strlit("");
    let started = Seq::<(Seq<char>, Seq<char>)>::empty();
    assert(inserted(started, "Content-Type"@, json_of_text(multipart_type(boundary))) =~= seq![
        ("Content-Type"@, json_of_text(multipart_type(boundary))),
    ]);
}

} // verus!
