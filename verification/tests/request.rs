use layer8_interceptor::body::{
    headers_to_reqwest_headers, parse_js_request_body, readable_stream_to_bytes, L8BodyType,
};
use layer8_interceptor::error::L8Error;
use layer8_interceptor::formdata::{FormBlob, FormData, FormEntry, FormValue};
use layer8_interceptor::host::{
    get_request_referer_policy, JsBody, JsHeader, JsHeaders, JsRequest, L8RequestMode,
    ReferrerPolicy, RequestOptions, Resource,
};
use layer8_interceptor::request::{retrieve_resource_url, L8RequestObject};
use layer8_interceptor::resource::{base_url, get_base_url, get_uri};
use layer8_interceptor::string_map::StringMap;

fn header(name: &str, value: &str) -> JsHeader {
    JsHeader { name: Some(name.to_string()), value: Some(value.to_string()) }
}

fn map_of(pairs: &[(&str, &str)]) -> StringMap {
    let mut map = StringMap::new();
    for (key, value) in pairs {
        map.insert(key.to_string(), value.to_string());
    }
    map
}

fn pairs(map: &StringMap) -> Vec<(String, String)> {
    (0..map.len()).map(|i| (map.key_at(i).clone(), map.value_at(i).clone())).collect()
}

fn with_body(body: JsBody) -> RequestOptions {
    let mut options = RequestOptions::new();
    options.body = Some(body);
    options
}

#[test]
fn uri_is_path_and_query() {
    assert_eq!(get_uri("https://svc.example.com/api?x=1"), Ok("/api?x=1".to_string()));
    assert_eq!(get_uri("https://h/p"), Ok("/p".to_string()));
    assert_eq!(get_uri("https://h"), Ok("/".to_string()));
    assert_eq!(get_uri("https://h/p?a=1#frag"), Ok("/p?a=1".to_string()));
    assert_eq!(get_uri("not a url"), Err(L8Error::InvalidResource));
    assert_eq!(get_uri(""), Err(L8Error::InvalidResource));
}

#[test]
fn base_url_is_scheme_host_and_given_port() {
    assert_eq!(
        get_base_url("https://svc.example.com/api?x=1"),
        Ok("https://svc.example.com".to_string())
    );
    assert_eq!(get_base_url("HTTP://Example.COM:8080/a/b"), Ok("http://example.com:8080".to_string()));
    assert_eq!(get_base_url("https://example.com:443/"), Ok("https://example.com".to_string()));
    assert_eq!(get_base_url("http://localhost:6191/x"), Ok("http://localhost:6191".to_string()));
    assert_eq!(get_base_url("data:text/plain,Stuff"), Ok("data://".to_string()));
    assert_eq!(get_base_url("/relative"), Err(L8Error::InvalidResource));
    assert_eq!(base_url("https://a.b:65535"), Ok("https://a.b:65535".to_string()));
}

#[test]
fn resource_urls() {
    assert_eq!(
        retrieve_resource_url(&Resource::Text("https://h/p".to_string())),
        Ok("https://h/p".to_string())
    );
    assert_eq!(
        retrieve_resource_url(&Resource::Url("https://h/q".to_string())),
        Ok("https://h/q".to_string())
    );
    let request = JsRequest {
        url: "https://h/r".to_string(),
        method: "post".to_string(),
        headers: JsHeaders::Absent,
        body: None,
    };
    assert_eq!(retrieve_resource_url(&Resource::Request(request)), Ok("https://h/r".to_string()));
    assert_eq!(retrieve_resource_url(&Resource::Other), Err(L8Error::InvalidResource));
    assert_eq!(
        retrieve_resource_url(&Resource::Text(String::new())),
        Err(L8Error::InvalidResource)
    );
    assert_eq!(
        retrieve_resource_url(&Resource::Text("nonsense".to_string())),
        Err(L8Error::InvalidResource)
    );
}

#[test]
fn no_options_make_a_plain_get() {
    let url = "https://svc.example.com/api?x=1";
    let request = L8RequestObject::new(url, &Resource::Text(url.to_string()), None).unwrap();
    assert_eq!(request.uri, "/api?x=1");
    assert_eq!(request.method, "GET");
    assert!(request.headers.is_empty());
    assert!(request.body.is_empty());
    assert_eq!(request.mode, None);
    assert_eq!(request.redirect, None);
    assert_eq!(request.signal, None);
    let mut expected = L8RequestObject::default();
    expected.uri = "/api?x=1".to_string();
    expected.method = "GET".to_string();
    assert_eq!(request, expected);
}

#[test]
fn a_resource_of_no_known_kind_is_refused() {
    assert_eq!(
        L8RequestObject::new("https://h/p", &Resource::Other, None),
        Err(L8Error::InvalidResource)
    );
    assert_eq!(
        L8RequestObject::new("https://h/p", &Resource::Other, Some(RequestOptions::new())),
        Err(L8Error::InvalidResource)
    );
    assert_eq!(
        L8RequestObject::new_with_boundary("https://h/p", &Resource::Other, None, "B"),
        Err(L8Error::InvalidResource)
    );
    let url = Resource::Url("https://h/p".to_string());
    assert_eq!(L8RequestObject::new("https://h/p?q", &url, None).unwrap().method, "GET");
}

#[test]
fn an_invalid_url_is_refused() {
    assert_eq!(
        L8RequestObject::new("nope", &Resource::Text("nope".to_string()), None),
        Err(L8Error::InvalidResource)
    );
}

#[test]
fn url_search_params_go_into_the_query() {
    let body = JsBody::UrlSearchParams(vec![
        ("a".to_string(), "1".to_string()),
        ("b".to_string(), "2".to_string()),
    ]);
    let request = L8RequestObject::new(
        "https://h/p",
        &Resource::Text("https://h/p".to_string()),
        Some(with_body(body)),
    )
    .unwrap();
    assert_eq!(request.uri, "/p?a=1&b=2");
    assert!(request.body.is_empty());
    assert_eq!(request.method, "GET");
}

#[test]
fn a_repeated_parameter_takes_the_later_value() {
    let body = JsBody::UrlSearchParams(vec![
        ("a".to_string(), "1".to_string()),
        ("b".to_string(), "2".to_string()),
        ("a".to_string(), "3".to_string()),
    ]);
    let request =
        L8RequestObject::from_request_options("/p".to_string(), with_body(body)).unwrap();
    assert_eq!(request.uri, "/p?a=3&b=2");
}

#[test]
fn bodies_of_bytes_arrive_unchanged() {
    let cases: Vec<(JsBody, Vec<u8>)> = vec![
        (JsBody::Text("héllo".to_string()), "héllo".as_bytes().to_vec()),
        (JsBody::ArrayBuffer(vec![0, 255, 7]), vec![0, 255, 7]),
        (JsBody::DataView(vec![9, 8]), vec![9, 8]),
        (JsBody::Blob(vec![vec![1, 2], vec![], vec![3]]), vec![1, 2, 3]),
        (JsBody::File(vec![vec![4], vec![5, 6]]), vec![4, 5, 6]),
        (JsBody::ReadableStream(vec![vec![7, 7, 7]]), vec![7, 7, 7]),
        (JsBody::Object("[object Object]".to_string()), b"[object Object]".to_vec()),
    ];
    for (body, expected) in cases {
        let request =
            L8RequestObject::from_request_options("/p".to_string(), with_body(body)).unwrap();
        assert_eq!(request.body, expected);
        assert_eq!(request.uri, "/p");
        assert!(request.headers.is_empty());
    }
}

#[test]
fn a_body_that_is_no_object_is_refused() {
    assert_eq!(
        L8RequestObject::from_request_options("/p".to_string(), with_body(JsBody::Other)),
        Err(L8Error::InvalidBody)
    );
    assert!(matches!(parse_js_request_body(JsBody::Other), Err(L8Error::InvalidBody)));
}

#[test]
fn a_form_becomes_a_multipart_body() {
    let form = FormData {
        entries: vec![
            FormEntry { name: "key1".to_string(), value: FormValue::Text("value1".to_string()) },
            FormEntry {
                name: "file".to_string(),
                value: FormValue::Blob(FormBlob {
                    filename: "a.txt".to_string(),
                    content_type: "text/plain".to_string(),
                    bytes: vec![0x41, 0x42, 0x43],
                }),
            },
        ],
    };
    let request = L8RequestObject::from_request_options_with_boundary(
        "/upload".to_string(),
        with_body(JsBody::FormData(form)),
        "B",
    )
    .unwrap();
    assert_eq!(
        pairs(&request.headers),
        vec![("Content-Type".to_string(), "\"multipart/form-data; boundary=B\"".to_string())]
    );
    assert_eq!(
        request.body,
        b"--B\r\nContent-Disposition: form-data; name=\"key1\"\r\n\r\nvalue1\r\n--B\r\nContent-Disposition: form-data; name=\"file\"; filename=\"a.txt\"\r\nContent-Type: text/plain\r\n\r\nABC\r\n--B--".to_vec()
    );
}

#[test]
fn a_form_gets_a_fresh_boundary() {
    let make = || FormData {
        entries: vec![FormEntry {
            name: "k".to_string(),
            value: FormValue::Text("v".to_string()),
        }],
    };
    let first =
        L8RequestObject::from_request_options("/u".to_string(), with_body(JsBody::FormData(make())))
            .unwrap();
    let second =
        L8RequestObject::from_request_options("/u".to_string(), with_body(JsBody::FormData(make())))
            .unwrap();
    let content_type = first.headers.get(&"Content-Type".to_string()).unwrap().clone();
    let prefix = "\"multipart/form-data; boundary=";
    assert!(content_type.starts_with(prefix));
    let boundary = &content_type[prefix.len()..content_type.len() - 1];
    assert_eq!(boundary.len(), 36);
    let text = String::from_utf8(first.body.clone()).unwrap();
    assert!(text.starts_with(&format!("--{}\r\n", boundary)));
    assert!(text.ends_with(&format!("--{}--", boundary)));
    assert_ne!(first.headers, second.headers);
}

#[test]
fn methods_are_trimmed_and_upper_case() {
    let mut options = RequestOptions::new();
    options.method = Some("  post \n".to_string());
    let request = L8RequestObject::from_request_options("/p".to_string(), options).unwrap();
    assert_eq!(request.method, "POST");
    let request =
        L8RequestObject::from_request_options("/p".to_string(), RequestOptions::new()).unwrap();
    assert_eq!(request.method, "GET");
}

#[test]
fn properties_have_their_defaults() {
    let request =
        L8RequestObject::from_request_options("/p".to_string(), RequestOptions::new()).unwrap();
    assert!(!request.body_used);
    assert_eq!(request.cache, "default");
    assert_eq!(request.credentials, "same-origin");
    assert_eq!(request.destination, "");
    assert_eq!(request.integrity, "");
    assert!(!request.is_history_navigation);
    assert_eq!(request.keep_alive, None);
    assert_eq!(request.mode, Some(L8RequestMode::Cors));
    assert_eq!(request.redirect, Some("follow".to_string()));
    assert_eq!(request.signal, None);
    assert!(request.headers.is_empty());
}

#[test]
fn properties_are_mirrored() {
    let mut options = RequestOptions::new();
    options.cache = Some("no-store".to_string());
    options.credentials = Some("include".to_string());
    options.destination = Some("image".to_string());
    options.integrity = Some("sha256-abc".to_string());
    options.is_history_navigation = Some(true);
    options.keepalive = Some(false);
    options.mode = Some(L8RequestMode::NoCors);
    options.redirect = Some("manual".to_string());
    options.referrer_policy = Some(ReferrerPolicy::StrictOrigin);
    options.referrer = Some("https://from.example/".to_string());
    options.signal = Some(42);
    options.headers = JsHeaders::Object(vec![header("X-A", "\"1\"")]);
    let mut request = L8RequestObject::default();
    request.keep_alive = Some(true);
    request.add_properties(&options);
    assert_eq!(request.cache, "no-store");
    assert_eq!(request.credentials, "include");
    assert_eq!(request.destination, "image");
    assert_eq!(request.integrity, "sha256-abc");
    assert!(request.is_history_navigation);
    assert_eq!(request.keep_alive, Some(false));
    assert_eq!(request.mode, Some(L8RequestMode::NoCors));
    assert_eq!(request.redirect, Some("manual".to_string()));
    assert_eq!(request.signal, Some(42));
    assert_eq!(
        request.headers,
        map_of(&[
            ("Referrer-Policy", "\"strict-origin\""),
            ("Referrer", "\"https://from.example/\""),
        ])
    );
}

#[test]
fn keep_alive_stays_when_the_options_name_none() {
    let mut request = L8RequestObject::default();
    request.keep_alive = Some(true);
    request.add_properties(&RequestOptions::new());
    assert_eq!(request.keep_alive, Some(true));
}

#[test]
fn no_referrer_hides_the_referrer() {
    let mut options = RequestOptions::new();
    options.referrer_policy = Some(ReferrerPolicy::NoReferrer);
    options.referrer = Some("https://from.example/".to_string());
    let mut request = L8RequestObject::default();
    request.add_properties(&options);
    assert_eq!(request.headers, map_of(&[("Referrer-Policy", "\"no-referrer\"")]));
    let mut options = RequestOptions::new();
    options.referrer = Some("https://from.example/".to_string());
    let mut request = L8RequestObject::default();
    request.add_properties(&options);
    assert_eq!(request.headers, map_of(&[("Referrer", "\"https://from.example/\"")]));
    let mut options = RequestOptions::new();
    options.referrer_policy = Some(ReferrerPolicy::Unset);
    let mut request = L8RequestObject::default();
    request.add_properties(&options);
    assert!(request.headers.is_empty());
}

#[test]
fn referrer_policies_as_texts() {
    let all = [
        (ReferrerPolicy::Unset, ""),
        (ReferrerPolicy::NoReferrer, "no-referrer"),
        (ReferrerPolicy::NoReferrerWhenDowngrade, "no-referrer-when-downgrade"),
        (ReferrerPolicy::Origin, "origin"),
        (ReferrerPolicy::OriginWhenCrossOrigin, "origin-when-cross-origin"),
        (ReferrerPolicy::UnsafeUrl, "unsafe-url"),
        (ReferrerPolicy::SameOrigin, "same-origin"),
        (ReferrerPolicy::StrictOrigin, "strict-origin"),
        (ReferrerPolicy::StrictOriginWhenCrossOrigin, "strict-origin-when-cross-origin"),
    ];
    for (policy, text) in all {
        let mut options = RequestOptions::new();
        options.referrer_policy = Some(policy);
        assert_eq!(get_request_referer_policy(&options), text);
        assert_eq!(policy.as_str(), text);
    }
    assert_eq!(get_request_referer_policy(&RequestOptions::new()), "");
}

#[test]
fn request_modes() {
    let mut options = RequestOptions::new();
    assert_eq!(L8RequestMode::from_request_options(&options), Some(L8RequestMode::Cors));
    for mode in [
        L8RequestMode::SameOrigin,
        L8RequestMode::NoCors,
        L8RequestMode::Cors,
        L8RequestMode::Navigate,
    ] {
        options.mode = Some(mode);
        assert_eq!(L8RequestMode::from_request_options(&options), Some(mode));
    }
}

#[test]
fn headers_are_collected() {
    assert_eq!(headers_to_reqwest_headers(&JsHeaders::Absent), Ok(StringMap::new()));
    assert_eq!(headers_to_reqwest_headers(&JsHeaders::Other), Err(L8Error::InvalidHeaders));
    let entries = vec![
        header("a", "\"1\""),
        JsHeader { name: None, value: Some("\"skipped\"".to_string()) },
        header("b", "2"),
        header("a", "\"3\""),
    ];
    assert_eq!(
        headers_to_reqwest_headers(&JsHeaders::Object(entries)),
        Ok(map_of(&[("a", "\"3\""), ("b", "2")]))
    );
    assert_eq!(
        headers_to_reqwest_headers(&JsHeaders::Headers(vec![header("x", "true")])),
        Ok(map_of(&[("x", "true")]))
    );
    let bad = vec![header("a", "\"1\""), JsHeader { name: Some("b".to_string()), value: None }];
    assert_eq!(headers_to_reqwest_headers(&JsHeaders::Object(bad)), Err(L8Error::InvalidHeaders));
    let nameless = vec![JsHeader { name: None, value: None }];
    assert_eq!(headers_to_reqwest_headers(&JsHeaders::Object(nameless)), Ok(StringMap::new()));
}

#[test]
fn caller_headers_come_after_the_content_type() {
    let form = FormData { entries: vec![] };
    let mut options = with_body(JsBody::FormData(form));
    options.headers =
        JsHeaders::Object(vec![header("X-A", "\"1\""), header("Content-Type", "\"mine\"")]);
    let request =
        L8RequestObject::from_request_options_with_boundary("/p".to_string(), options, "B")
            .unwrap();
    assert_eq!(
        pairs(&request.headers),
        vec![
            ("Content-Type".to_string(), "\"mine\"".to_string()),
            ("X-A".to_string(), "\"1\"".to_string()),
        ]
    );
    assert_eq!(request.body, b"--B--".to_vec());
}

#[test]
fn a_request_object_gives_method_headers_and_body() {
    let js = JsRequest {
        url: "https://h/r?q=1".to_string(),
        method: " put ".to_string(),
        headers: JsHeaders::Headers(vec![header("content-type", "\"text/plain\"")]),
        body: Some(vec![vec![1, 2], vec![3]]),
    };
    let mut options = RequestOptions::new();
    options.method = Some("DELETE".to_string());
    let request =
        L8RequestObject::new("https://h/r?q=1", &Resource::Request(js), Some(options)).unwrap();
    assert_eq!(request.uri, "/r?q=1");
    assert_eq!(request.method, "PUT");
    assert_eq!(request.body, vec![1, 2, 3]);
    assert_eq!(request.headers, map_of(&[("content-type", "\"text/plain\"")]));
    assert_eq!(request.mode, Some(L8RequestMode::Cors));
    assert_eq!(request.cache, "");
    assert_eq!(request.redirect, None);
}

#[test]
fn a_request_object_with_bad_headers_is_refused() {
    let js = JsRequest {
        url: "https://h/r".to_string(),
        method: "GET".to_string(),
        headers: JsHeaders::Other,
        body: None,
    };
    assert_eq!(
        L8RequestObject::new("https://h/r", &Resource::Request(js), None),
        Err(L8Error::InvalidHeaders)
    );
}

#[test]
fn bodies_are_sorted_by_kind() {
    assert!(matches!(
        parse_js_request_body(JsBody::Text("a".to_string())),
        Ok(L8BodyType::Bytes(bytes)) if bytes == vec![0x61]
    ));
    assert!(matches!(
        L8BodyType::from_jsvalue(JsBody::Blob(vec![vec![1]])),
        Ok(L8BodyType::Stream(chunks)) if chunks == vec![vec![1]]
    ));
    assert!(matches!(
        L8BodyType::from_jsvalue(JsBody::FormData(FormData { entries: vec![] })),
        Ok(L8BodyType::FormData(_))
    ));
    assert!(matches!(
        L8BodyType::from_jsvalue(JsBody::UrlSearchParams(vec![("k".to_string(), "v".to_string())])),
        Ok(L8BodyType::Params(params)) if params == map_of(&[("k", "v")])
    ));
    assert_eq!(readable_stream_to_bytes(&vec![vec![1], vec![2, 3]]), vec![1, 2, 3]);
    assert_eq!(readable_stream_to_bytes(&vec![]), Vec::<u8>::new());
}

#[test]
fn string_maps_keep_order_and_overwrite() {
    let mut map = StringMap::new();
    assert!(map.is_empty());
    map.insert("b".to_string(), "1".to_string());
    map.insert("a".to_string(), "2".to_string());
    map.insert("b".to_string(), "3".to_string());
    assert_eq!(map.len(), 2);
    assert_eq!(pairs(&map), vec![("b".to_string(), "3".to_string()), ("a".to_string(), "2".to_string())]);
    assert_eq!(map.get(&"a".to_string()), Some(&"2".to_string()));
    assert_eq!(map.get(&"zz".to_string()), None);
    assert_eq!(map.find(&"a".to_string()), Some(1));
    let mut other = StringMap::new();
    other.insert("a".to_string(), "9".to_string());
    other.insert("c".to_string(), "8".to_string());
    map.extend(&other);
    assert_eq!(
        pairs(&map),
        vec![
            ("b".to_string(), "3".to_string()),
            ("a".to_string(), "9".to_string()),
            ("c".to_string(), "8".to_string()),
        ]
    );
}

#[test]
fn the_request_as_json() {
    let mut request = L8RequestObject::default();
    request.uri = "/p?q=\"x\"".to_string();
    request.method = "POST".to_string();
    request.headers.insert("content-type".to_string(), "\"text/plain\"".to_string());
    request.headers.insert("x-n".to_string(), "[1,true]".to_string());
    request.body = vec![104, 105];
    request.cache = "default".to_string();
    let json = request.to_json();
    assert_eq!(
        String::from_utf8(json.clone()).unwrap(),
        "{\"uri\":\"/p?q=\\\"x\\\"\",\"method\":\"POST\",\"headers\":{\"content-type\":\"text/plain\",\"x-n\":[1,true]},\"body\":[104,105]}"
    );
    let value: serde_json::Value = serde_json::from_slice(&json).unwrap();
    assert_eq!(value["uri"], serde_json::Value::String("/p?q=\"x\"".to_string()));
    assert_eq!(value["headers"]["content-type"], serde_json::Value::String("text/plain".to_string()));
    assert_eq!(value["body"][1], serde_json::Value::from(105));
    assert_eq!(value.as_object().unwrap().len(), 4);
    let empty = L8RequestObject::default().to_json();
    assert_eq!(
        String::from_utf8(empty).unwrap(),
        "{\"uri\":\"\",\"method\":\"\",\"headers\":{},\"body\":[]}"
    );
}
