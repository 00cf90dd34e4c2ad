use crate::error::L8Error;
use crate::text::{decimal_spec, push_decimal, push_text};
use vstd::prelude::*;

verus! {

/// Whether `url::Url::parse` accepts the text as an absolute URL.
pub uninterp spec fn url_parses(input: Seq<char>) -> bool;

/// What `url::Url::scheme` returns for the URL parsed from the text.
pub uninterp spec fn url_scheme(input: Seq<char>) -> Seq<char>;

/// What `url::Url::host_str` returns for the URL parsed from the text.
pub uninterp spec fn url_host(input: Seq<char>) -> Option<Seq<char>>;

/// What `url::Url::port` returns for the URL parsed from the text.
pub uninterp spec fn url_port(input: Seq<char>) -> Option<u16>;

/// What `url::Url::path` returns for the URL parsed from the text.
pub uninterp spec fn url_path(input: Seq<char>) -> Seq<char>;

/// What `url::Url::query` returns for the URL parsed from the text.
pub uninterp spec fn url_query(input: Seq<char>) -> Option<Seq<char>>;

/// The components of a parsed URL that this library reads.
pub struct UrlParts {
    pub scheme: String,
    pub host: Option<String>,
    pub port: Option<u16>,
    pub path: String,
    pub query: Option<String>,
}

/// Parses the text with `url::Url::parse` and reads the URL's scheme, host, port, path and
/// query with the accessors of `url::Url`. Nothing is claimed about what the parser accepts or
/// finds beyond this: the result is `None` exactly when the parser refuses the text, and
/// every component is what the accessor of that name returns.
#[verifier::external_body]
fn split_url(input: &str) -> (parts: Option<UrlParts>)
    ensures
        parts is Some == url_parses(input@),
        parts matches Some(p) ==> p.scheme@ == url_scheme(input@),
        parts matches Some(p) ==> url_host(input@) == (match p.host {
            Some(host) => Some(host@),
            None => None::<Seq<char>>,
        }),
        parts matches Some(p) ==> p.port == url_port(input@),
        parts matches Some(p) ==> p.path@ == url_path(input@),
        parts matches Some(p) ==> url_query(input@) == (match p.query {
            Some(query) => Some(query@),
            None => None::<Seq<char>>,
        }),
{
    match ::url::Url::parse(input) {
        Ok(parsed) => Some(
            UrlParts {
                scheme: parsed.scheme().to_string(),
                host: parsed.host_str().map(|host| host.to_string()),
                port: parsed.port(),
                path: parsed.path().to_string(),
                query: parsed.query().map(|query| query.to_string()),
            },
        ),
        Err(_) => None,
    }
}

/// The path of a URL, followed by `?` and its query where it has one.
pub open spec fn uri_of(input: Seq<char>) -> Seq<char> {
    url_path(input) + (match url_query(input) {
        Some(query) => "?"@ + query,
        None => Seq::empty(),
    })
}

/// The origin of a URL: scheme, `://`, host (empty where the URL has none), and `:` with
/// the port where the URL names one.
pub open spec fn base_url_of(input: Seq<char>) -> Seq<char> {
    url_scheme(input) + "://"@ + (match url_host(input) {
        Some(host) => host,
        None => Seq::empty(),
    }) + (match url_port(input) {
        Some(port) => ":"@ + decimal_spec(port as nat),
        None => Seq::empty(),
    })
}

/// The path and query of a URL, as they are sent through the tunnel. A text that is no
/// absolute URL is refused.
pub fn get_uri(url: &str) -> (uri: Result<String, L8Error>)
    ensures
        url_parses(url@) ==> (uri matches Ok(text) && text@ == uri_of(url@)),
        !url_parses(url@) ==> uri == Err::<String, L8Error>(L8Error::InvalidResource),
{
    match split_url(url) {
        None => Err(L8Error::InvalidResource),
        Some(parts) => {
            let mut uri = String::new();
            push_text(&mut uri, parts.path.as_str());
            match &parts.query {
                Some(query) => {
                    push_text(&mut uri, "?");
                    push_text(&mut uri, query.as_str());
                },
                None => {},
            }
            assert(uri@ =~= uri_of(url@));
            Ok(uri)
        },
    }
}

/// The origin of a URL, by which its provider is known. A text that is no absolute URL is
/// refused.
pub fn get_base_url(url: &str) -> (base: Result<String, L8Error>)
    ensures
        url_parses(url@) ==> (base matches Ok(text) && text@ == base_url_of(url@)),
        !url_parses(url@) ==> base == Err::<String, L8Error>(L8Error::InvalidResource),
{
    match split_url(url) {
        None => Err(L8Error::InvalidResource),
        Some(parts) => {
            let mut base = String::new();
            push_text(&mut base, parts.scheme.as_str());
            push_text(&mut base, "://");
            match &parts.host {
                Some(host) => {
                    push_text(&mut base, host.as_str());
                },
                None => {},
            }
            match parts.port {
                Some(port) => {
                    push_text(&mut base, ":");
                    push_decimal(&mut base, port as u32);
                },
                None => {},
            }
            assert(base@ =~= base_url_of(url@));
            Ok(base)
        },
    }
}

/// The origin of a URL.
pub fn base_url(url: &str) -> (base: Result<String, L8Error>)
    ensures
        url_parses(url@) ==> (base matches Ok(text) && text@ == base_url_of(url@)),
        !url_parses(url@) ==> base == Err::<String, L8Error>(L8Error::InvalidResource),
{
    get_base_url(url)
}

} // verus!
