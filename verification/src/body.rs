use crate::error::L8Error;
use crate::formdata::{joined, FormData};
use crate::host::{JsBody, JsHeader, JsHeaders};
use crate::string_map::{extended, inserted, pairs_of, StringMap};
use crate::text::{append_bytes, append_text, utf8};
use vstd::prelude::*;

verus! {

/// A body, by what is done with it.
pub enum L8BodyType {
    /// Bytes that are sent as they are.
    Bytes(Vec<u8>),
    /// A stream, as its chunks, which is read to its end.
    Stream(Vec<Vec<u8>>),
    /// Parameters, which go into the query.
    Params(StringMap),
    /// A form, which is encoded as a multipart body.
    FormData(FormData),
    /// The content of a file.
    File(Vec<u8>),
}

/// Reads a stream to its end: the chunks, one behind the other.
pub fn readable_stream_to_bytes(stream: &Vec<Vec<u8>>) -> (data: Vec<u8>)
    ensures
        data@ == joined(stream@, stream@.len() as int),
{
    let mut data: Vec<u8> = Vec::new();
    let mut i: usize = 0;
    while i < stream.len()
        invariant
            i <= stream.len(),
            data@ == joined(stream@, i as int),
        decreases stream.len() - i,
    {
        append_bytes(&mut data, stream[i].as_slice());
        i = i + 1;
    }
    data
}

/// Collects parameters into a map: a name that comes again takes the later value.
pub fn collect_params(pairs: &Vec<(String, String)>) -> (params: StringMap)
    ensures
        params@ == extended(Seq::empty(), pairs_of(pairs@), pairs@.len() as int),
{
    let mut params = StringMap::new();
    let mut i: usize = 0;
    while i < pairs.len()
        invariant
            i <= pairs.len(),
            params@ == extended(Seq::empty(), pairs_of(pairs@), i as int),
        decreases pairs.len() - i,
    {
        params.insert(pairs[i].0.clone(), pairs[i].1.clone());
        i = i + 1;
    }
    params
}

impl L8BodyType {
    /// Sorts a body by what is done with it: a text and the text of an object become their
    /// UTF-8 bytes; a buffer and a view become their bytes; a blob, a file and a stream are
    /// streams; search parameters are collected into a map; a form stays a form. A value
    /// that is no object is refused.
    pub fn from_jsvalue(body: JsBody) -> (sorted: Result<L8BodyType, L8Error>)
        ensures
            match body {
                JsBody::Text(text) => sorted matches Ok(L8BodyType::Bytes(bytes)) && bytes@
                    == utf8(text@),
                JsBody::ArrayBuffer(buffer) => sorted matches Ok(L8BodyType::Bytes(bytes))
                    && bytes@ == buffer@,
                JsBody::DataView(buffer) => sorted matches Ok(L8BodyType::Bytes(bytes)) && bytes@
                    == buffer@,
                JsBody::Blob(chunks) => sorted matches Ok(L8BodyType::Stream(stream)) && stream
                    == chunks,
                JsBody::File(chunks) => sorted matches Ok(L8BodyType::Stream(stream)) && stream
                    == chunks,
                JsBody::UrlSearchParams(pairs) => sorted matches Ok(L8BodyType::Params(params))
                    && params@ == extended(Seq::empty(), pairs_of(pairs@), pairs@.len() as int),
                JsBody::FormData(form) => sorted matches Ok(L8BodyType::FormData(same)) && same
                    == form,
                JsBody::ReadableStream(chunks) => sorted matches Ok(L8BodyType::Stream(stream))
                    && stream == chunks,
                JsBody::Object(text) => sorted matches Ok(L8BodyType::Bytes(bytes)) && bytes@
                    == utf8(text@),
                JsBody::Other => sorted matches Err(L8Error::InvalidBody),
            },
    {
        match body {
            JsBody::Text(text) => {
                let mut bytes: Vec<u8> = Vec::new();
                append_text(&mut bytes, text.as_str());
                assert(bytes@ =~= utf8(text@));
                Ok(L8BodyType::Bytes(bytes))
            },
            JsBody::ArrayBuffer(buffer) => Ok(L8BodyType::Bytes(buffer)),
            JsBody::DataView(buffer) => Ok(L8BodyType::Bytes(buffer)),
            JsBody::Blob(chunks) => Ok(L8BodyType::Stream(chunks)),
            JsBody::File(chunks) => Ok(L8BodyType::Stream(chunks)),
            JsBody::UrlSearchParams(pairs) => Ok(L8BodyType::Params(collect_params(&pairs))),
            JsBody::FormData(form) => Ok(L8BodyType::FormData(form)),
            JsBody::ReadableStream(chunks) => Ok(L8BodyType::Stream(chunks)),
            JsBody::Object(text) => {
                let mut bytes: Vec<u8> = Vec::new();
                append_text(&mut bytes, text.as_str());
                assert(bytes@ =~= utf8(text@));
                Ok(L8BodyType::Bytes(bytes))
            },
            JsBody::Other => Err(L8Error::InvalidBody),
        }
    }
}

/// The headers that the first `n` entries give, or `None` where one of them has a name
/// and no value that can be written down. An entry whose name is no text is passed over;
/// a name that comes again takes the later value.
pub open spec fn collected(entries: Seq<JsHeader>, n: int) -> Option<Seq<(Seq<char>, Seq<char>)>>
    decreases n,
{
    if n <= 0 {
        Some(Seq::empty())
    } else {
        match collected(entries, n - 1) {
            None => None,
            Some(sofar) => match entries[n - 1].name {
                None => Some(sofar),
                Some(name) => match entries[n - 1].value {
                    None => None,
                    Some(value) => Some(inserted(sofar, name@, value@)),
                },
            },
        }
    }
}

/// The headers that the caller's headers give, or `None` where they are refused: no
/// headers where nothing was given, the entries of a headers object or of a plain object,
/// and a refusal for a value that is no object.
pub open spec fn headers_of(headers: &JsHeaders) -> Option<Seq<(Seq<char>, Seq<char>)>> {
    match headers {
        JsHeaders::Absent => Some(Seq::empty()),
        JsHeaders::Headers(entries) => collected(entries@, entries@.len() as int),
        JsHeaders::Object(entries) => collected(entries@, entries@.len() as int),
        JsHeaders::Other => None,
    }
}

/// Collects the entries of a headers object into a map.
pub fn js_headers_to_reqwest_headers(entries: &Vec<JsHeader>) -> (headers: Result<
    StringMap,
    L8Error,
>)
    ensures
        match collected(entries@, entries@.len() as int) {
            Some(pairs) => headers matches Ok(map) && map@ == pairs,
            None => headers matches Err(L8Error::InvalidHeaders),
        },
{
    let mut map = StringMap::new();
    let mut i: usize = 0;
    while i < entries.len()
        invariant
            i <= entries.len(),
            collected(entries@, i as int) == Some(map@),
        decreases entries.len() - i,
    {
        match &entries[i].name {
            None => {},
            Some(name) => match &entries[i].value {
                None => {
                    proof {
                        lemma_collected_stays_none(entries@, i + 1, entries@.len() as int);
                    }
                    return Err(L8Error::InvalidHeaders);
                },
                Some(value) => {
                    map.insert(name.clone(), value.clone());
                },
            },
        }
        i = i + 1;
    }
    Ok(map)
}

/// Once an entry is refused, more entries change nothing.
proof fn lemma_collected_stays_none(entries: Seq<JsHeader>, n: int, m: int)
    requires
        0 <= n <= m,
        collected(entries, n) is None,
    ensures
        collected(entries, m) is None,
    decreases m - n,
{
    if n < m {
        lemma_collected_stays_none(entries, n, m - 1);
    }
}

/// The caller's headers as a map from names to values. Nothing given makes an empty map;
/// a value that is no object is refused, and so is an entry whose value cannot be written
/// down.
pub fn headers_to_reqwest_headers(js_headers: &JsHeaders) -> (headers: Result<
    StringMap,
    L8Error,
>)
    ensures
        match headers_of(js_headers) {
            Some(pairs) => headers matches Ok(map) && map@ == pairs,
            None => headers matches Err(L8Error::InvalidHeaders),
        },
{
    match js_headers {
        JsHeaders::Absent => Ok(StringMap::new()),
        JsHeaders::Headers(entries) => js_headers_to_reqwest_headers(entries),
        JsHeaders::Object(entries) => js_headers_to_reqwest_headers(entries),
        JsHeaders::Other => Err(L8Error::InvalidHeaders),
    }
}

/// Sorts a body by what is done with it.
pub fn parse_js_request_body(body: JsBody) -> (sorted: Result<L8BodyType, L8Error>)
    ensures
        match body {
            JsBody::Text(text) => sorted matches Ok(L8BodyType::Bytes(bytes)) && bytes@ == utf8(
                text@,
            ),
            JsBody::ArrayBuffer(buffer) => sorted matches Ok(L8BodyType::Bytes(bytes)) && bytes@
                == buffer@,
            JsBody::DataView(buffer) => sorted matches Ok(L8BodyType::Bytes(bytes)) && bytes@
                == buffer@,
            JsBody::Blob(chunks) => sorted matches Ok(L8BodyType::Stream(stream)) && stream
                == chunks,
            JsBody::File(chunks) => sorted matches Ok(L8BodyType::Stream(stream)) && stream
                == chunks,
            JsBody::UrlSearchParams(pairs) => sorted matches Ok(L8BodyType::Params(params))
                && params@ == extended(Seq::empty(), pairs_of(pairs@), pairs@.len() as int),
            JsBody::FormData(form) => sorted matches Ok(L8BodyType::FormData(same)) && same
                == form,
            JsBody::ReadableStream(chunks) => sorted matches Ok(L8BodyType::Stream(stream))
                && stream == chunks,
            JsBody::Object(text) => sorted matches Ok(L8BodyType::Bytes(bytes)) && bytes@ == utf8(
                text@,
            ),
            JsBody::Other => sorted matches Err(L8Error::InvalidBody),
        },
{
    L8BodyType::from_jsvalue(body)
}

} // verus!
