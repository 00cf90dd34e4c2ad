use crate::constants::{FETCH_RETRY_ATTEMPTS, FETCH_RETRY_SLEEP_DELAY};
use crate::error::L8Error;
use crate::host::{RequestOptions, Resource};
use crate::http_caller::{HttpRequest, HttpRequestView};
use crate::init_tunnel::handshake_url;
use crate::json::WasmEncryptedMessage;
use crate::network_state::{
    poll_of, InMemoryCache, InitTunnelResult, NetworkState, NetworkStateOpen, NetworkStatePoll,
};
use crate::request::{new_boundary, normalized, retrieve_resource_url, L8RequestObject};
use crate::resource::{base_url_of, get_base_url, url_parses};
use crate::response::{JsResponse, L8ResponseObject};
use crate::string_map::pairs_of;
use crate::text::push_text;
use vstd::prelude::*;

verus! {

/// What the engine makes of one attempt to reach the proxy.
#[derive(Debug, PartialEq, Eq)]
pub enum NetworkStateResponse {
    /// The attempt failed for good.
    ProxyError(L8Error),
    /// The proxy delivered the provider's response, which is still sealed.
    ProviderResponse(WasmEncryptedMessage),
    /// The attempt failed and the tunnel is to be set up anew.
    Reinitialize,
}

/// The request to the proxy that carries a sealed request: a `POST` to the proxy's
/// `/proxy` with the tunnel's two tokens, the mark `x-empty-body` where the request has no
/// body, and the sealed message as its body.
pub open spec fn proxy_request(
    request: &L8RequestObject,
    session: &NetworkStateOpen,
    sealed: &WasmEncryptedMessage,
) -> HttpRequestView {
    let fixed = seq![
        ("content-type"@, "application/json"@),
        ("int_rp_jwt"@, session.init_tunnel_result.int_rp_jwt@),
        ("int_fp_jwt"@, session.init_tunnel_result.int_fp_jwt@),
    ];
    HttpRequestView {
        method: "POST"@,
        url: session.forward_proxy_url@ + "/proxy"@,
        headers: if request.body@.len() == 0 {
            fixed.push(("x-empty-body"@, "true"@))
        } else {
            fixed
        },
        body: sealed.json(),
    }
}

/// What the engine makes of the proxy's answer: a status of 400 or above asks for a new
/// tunnel while one may still be set up, and is an error with the status and the answer's
/// text otherwise; below 400 the answer must hold a sealed message.
pub open spec fn verdict(
    reinitialize_attempt: bool,
    status: u16,
    text: String,
    message: Option<WasmEncryptedMessage>,
) -> NetworkStateResponse {
    if status >= 400 {
        if reinitialize_attempt {
            NetworkStateResponse::Reinitialize
        } else {
            NetworkStateResponse::ProxyError(L8Error::ProxyBadStatus { status, text })
        }
    } else {
        match message {
            Some(sealed) => NetworkStateResponse::ProviderResponse(sealed),
            None => NetworkStateResponse::ProxyError(L8Error::DecodeFailed),
        }
    }
}

/// What the engine makes of a request that did not reach the proxy: where the request
/// has an abort signal and the signal has fired, the call was aborted, with the signal's
/// reason; otherwise a new tunnel is asked for while one may still be set up, and the
/// transport has failed where none may.
pub open spec fn failure_verdict(
    signal: Option<u64>,
    reinitialize_attempt: bool,
    aborted: Option<String>,
) -> NetworkStateResponse {
    match (signal, aborted) {
        (Some(_), Some(reason)) => NetworkStateResponse::ProxyError(L8Error::Aborted { reason }),
        _ => if reinitialize_attempt {
            NetworkStateResponse::Reinitialize
        } else {
            NetworkStateResponse::ProxyError(L8Error::TransportFailed)
        },
    }
}

impl L8RequestObject {
    /// The request to the proxy that carries this request, sealed.
    pub fn l8_send(&self, network_state_open: &NetworkStateOpen, sealed: &WasmEncryptedMessage) -> (post:
        HttpRequest)
        ensures
            post@ == proxy_request(self, network_state_open, sealed),
    {
        let mut url = network_state_open.forward_proxy_url.clone();
        push_text(&mut url, "/proxy");
        let mut headers: Vec<(String, String)> = Vec::new();
        headers.push(("content-type".to_owned(), "application/json".to_owned()));
        headers.push(("int_rp_jwt".to_owned(), network_state_open.int_rp_jwt()));
        headers.push(("int_fp_jwt".to_owned(), network_state_open.int_fp_jwt()));
        if self.body.len() == 0 {
            headers.push(("x-empty-body".to_owned(), "true".to_owned()));
        }
        let post = HttpRequest { method: "POST".to_owned(), url, headers, body: sealed.to_json() };
        assert(post@.headers =~= proxy_request(self, network_state_open, sealed).headers);
        post
    }

    /// What the engine makes of the proxy's answer.
    pub fn handle_response(
        reinitialize_attempt: bool,
        status: u16,
        text: String,
        message: Option<WasmEncryptedMessage>,
    ) -> (made: NetworkStateResponse)
        ensures
            made == verdict(reinitialize_attempt, status, text, message),
    {
        if status >= 400 {
            if reinitialize_attempt {
                NetworkStateResponse::Reinitialize
            } else {
                NetworkStateResponse::ProxyError(L8Error::ProxyBadStatus { status, text })
            }
        } else {
            match message {
                Some(sealed) => NetworkStateResponse::ProviderResponse(sealed),
                None => NetworkStateResponse::ProxyError(L8Error::DecodeFailed),
            }
        }
    }

    /// What the engine makes of a request that did not reach the proxy.
    pub fn send_failed(&self, reinitialize_attempt: bool, aborted: Option<String>) -> (made:
        NetworkStateResponse)
        ensures
            made == failure_verdict(self.signal, reinitialize_attempt, aborted),
    {
        match (self.signal, aborted) {
            (Some(_), Some(reason)) => NetworkStateResponse::ProxyError(
                L8Error::Aborted { reason },
            ),
            _ => if reinitialize_attempt {
                NetworkStateResponse::Reinitialize
            } else {
                NetworkStateResponse::ProxyError(L8Error::TransportFailed)
            },
        }
    }
}

/// Where a call stands.
#[derive(Clone, Copy, Debug, PartialEq, Eq, Structural)]
pub enum FetchPhase {
    /// The call waits for the provider's tunnel to be open.
    AwaitingSession,
    /// The request is being sealed.
    Sealing,
    /// The sealed request is on its way to the proxy.
    Posting,
    /// The proxy's answer is being opened.
    Opening,
    /// A new tunnel is being set up.
    Rotating,
    /// The call has ended.
    Done,
}

/// What opening the proxy's answer gave.
#[derive(Debug, PartialEq, Eq)]
pub enum Opened {
    /// The response that the answer held.
    Decoded(L8ResponseObject),
    /// The answer could not be decrypted.
    Undecryptable,
    /// What the answer held is no response.
    Undecodable,
}

/// What happened to the last thing a call asked for.
#[derive(Debug, PartialEq, Eq)]
pub enum FetchEvent {
    /// The delay has passed.
    Slept,
    /// The request was sealed, or could not be.
    Sealed(Option<WasmEncryptedMessage>),
    /// The request did not reach the proxy; the reason of the caller's abort signal where
    /// that signal has fired.
    SendFailed { aborted: Option<String> },
    /// The proxy answered: the status, the answer as a text, and the sealed message that
    /// the answer decodes to, if it decodes.
    Responded { status: u16, text: String, message: Option<WasmEncryptedMessage> },
    /// The proxy's answer was opened, or could not be.
    Opened(Opened),
    /// The new tunnel is set up, or could not be.
    TunnelReady(Result<InitTunnelResult, L8Error>),
}

/// What a call asks for next.
#[derive(Debug, PartialEq, Eq)]
pub enum FetchAction {
    /// Wait for so many milliseconds; answer with `Slept`.
    Sleep(i32),
    /// Seal the bytes with the key exchange client; answer with `Sealed`.
    Seal { client: u64, plaintext: Vec<u8> },
    /// Send this request to the proxy; answer with `Responded` or `SendFailed`.
    Post(HttpRequest),
    /// Open the sealed message with the key exchange client and decode what it holds;
    /// answer with `Opened`.
    Open { client: u64, message: WasmEncryptedMessage },
    /// Run a handshake with the proxy at this URL; answer with `TunnelReady`.
    InitTunnel { backend_url: String },
    /// The call has ended with this response.
    Deliver(JsResponse),
    /// The call has ended with this error.
    Fail(L8Error),
}

/// What a call is about, which does not change while it runs.
#[derive(Debug, PartialEq, Eq)]
pub struct FetchTarget {
    /// The URL that is fetched.
    pub backend_url: String,
    /// The provider's base URL, under which the registry keeps its tunnel.
    pub base_url: String,
    /// The boundary for the body of a form.
    pub boundary: String,
}

/// One call through the tunnel.
pub struct Fetch {
    pub target: FetchTarget,
    pub resource: Resource,
    /// The caller's options, until the request is made from them.
    pub options: Option<RequestOptions>,
    /// The request, once the provider's tunnel was seen open.
    pub request: Option<L8RequestObject>,
    /// The tunnel that the current attempt uses.
    pub session: Option<NetworkStateOpen>,
    /// How many requests were handed to the transport for the proxy.
    pub posts: u32,
    /// How many answers were handed over to be opened.
    pub opens: u32,
    pub phase: FetchPhase,
}

/// The response of the host that a response from the tunnel makes: the same status,
/// status text, headers and body.
pub open spec fn reconstructs(made: JsResponse, from: L8ResponseObject) -> bool {
    &&& made.status == from.status
    &&& made.status_text@ == from.status_text@
    &&& pairs_of(made.headers@) == from.headers@
    &&& made.body@ == from.body@
}

/// The entry that a registry holds for a provider, if it holds one.
pub open spec fn entry_of(states: Map<Seq<char>, NetworkState>, base_url: Seq<char>) -> Option<
    NetworkState,
> {
    if states.contains_key(base_url) {
        Some(states[base_url])
    } else {
        None
    }
}

/// The call has ended in failure: it keeps what it sent and what it held, and hands out
/// the reason.
pub open spec fn failed(before: Fetch, after: Fetch, action: FetchAction, why: L8Error) -> bool {
    &&& after.phase == FetchPhase::Done
    &&& after.posts == before.posts
    &&& after.opens == before.opens
    &&& after.request == before.request
    &&& after.session == before.session
    &&& action == FetchAction::Fail(why)
}

/// One look at the provider's tunnel by a call that waits for it. Without a tunnel, and
/// with one that failed, the call fails; while the tunnel is being set up the call
/// sleeps; once it is open the call makes its request, unless it has made it before, and
/// asks for it to be sealed with the tunnel's client.
pub open spec fn fetch_look(
    before: Fetch,
    states: Map<Seq<char>, NetworkState>,
    after: Fetch,
    action: FetchAction,
) -> bool {
    &&& after.target == before.target
    &&& after.resource == before.resource
    &&& after.posts == before.posts
    &&& after.opens == before.opens
    &&& match poll_of(entry_of(states, before.target.base_url@)) {
        NetworkStatePoll::Failed(why) => failed(before, after, action, why),
        NetworkStatePoll::Wait(delay) => {
            &&& after.phase == FetchPhase::AwaitingSession
            &&& after.options == before.options
            &&& after.request == before.request
            &&& after.session == before.session
            &&& action == FetchAction::Sleep(delay)
        },
        NetworkStatePoll::Open(session) => match before.request {
            Some(request) => {
                &&& after.phase == FetchPhase::Sealing
                &&& after.options == before.options
                &&& after.request == before.request
                &&& after.session == Some(session)
                &&& action matches FetchAction::Seal { client, plaintext }
                &&& client == session.init_tunnel_result.client
                &&& plaintext@ == request.json()
            },
            None => match normalized(
                before.target.backend_url@,
                &before.resource,
                before.options,
                before.target.boundary@,
            ) {
                Err(why) => failed(before, after, action, why),
                Ok(view) => {
                    &&& after.phase == FetchPhase::Sealing
                    &&& after.options is None
                    &&& after.session == Some(session)
                    &&& after.request matches Some(request)
                    &&& request@ == view
                    &&& action matches FetchAction::Seal { client, plaintext }
                    &&& client == session.init_tunnel_result.client
                    &&& plaintext@ == request.json()
                },
            },
        },
    }
}

/// The call gives up the tunnel: the registry marks the provider as connecting, and the
/// call asks for a handshake with the proxy.
pub open spec fn fetch_rotate(
    before: Fetch,
    states: Map<Seq<char>, NetworkState>,
    after: Fetch,
    states_after: Map<Seq<char>, NetworkState>,
    action: FetchAction,
) -> bool {
    &&& after.phase == FetchPhase::Rotating
    &&& after.posts == before.posts
    &&& after.opens == before.opens
    &&& states_after == states.insert(before.target.base_url@, NetworkState::CONNECTING)
    &&& action matches FetchAction::InitTunnel { backend_url }
    &&& before.session matches Some(session)
    &&& backend_url@ == handshake_url(session.forward_proxy_url@, before.target.base_url@)
}

/// The beginning of a call. A resource that names no URL that can be fetched ends the
/// call at once. Otherwise the call is for that URL and for the provider at the URL's
/// origin, and it takes its first look at the provider's tunnel.
pub open spec fn fetch_begins(
    states: Map<Seq<char>, NetworkState>,
    resource: Resource,
    options: Option<RequestOptions>,
    call: Fetch,
    action: FetchAction,
) -> bool {
    &&& call.resource == resource
    &&& match resource_url(&resource) {
        None => {
            &&& call.phase == FetchPhase::Done
            &&& call.posts == 0
            &&& call.opens == 0
            &&& action == FetchAction::Fail(L8Error::InvalidResource)
        },
        Some(url) => {
            &&& call.target.backend_url@ == url
            &&& call.target.base_url@ == base_url_of(url)
            &&& fetch_look(
                Fetch {
                    options: options,
                    request: None,
                    session: None,
                    posts: 0,
                    opens: 0,
                    phase: FetchPhase::AwaitingSession,
                    ..call
                },
                states,
                call,
                action,
            )
        },
    }
}

/// One step of a call: from where it stood, what the registry held and what happened, to
/// where it stands, what the registry holds and what the call asks for next.
pub open spec fn fetch_step(
    before: Fetch,
    states: Map<Seq<char>, NetworkState>,
    event: FetchEvent,
    after: Fetch,
    states_after: Map<Seq<char>, NetworkState>,
    action: FetchAction,
) -> bool {
    &&& after.target == before.target
    &&& after.resource == before.resource
    &&& match (before.phase, event, before.request, before.session) {
        (FetchPhase::AwaitingSession, FetchEvent::Slept, _, _) => {
            &&& states_after == states
            &&& fetch_look(before, states, after, action)
        },
        (FetchPhase::Sealing, FetchEvent::Sealed(None), Some(_), Some(_)) => {
            &&& states_after == states
            &&& failed(before, after, action, L8Error::SealFailed)
        },
        (FetchPhase::Sealing, FetchEvent::Sealed(Some(sealed)), Some(request), Some(session)) => {
            &&& states_after == states
            &&& if before.posts < FETCH_RETRY_ATTEMPTS {
                &&& after.phase == FetchPhase::Posting
                &&& after.posts == before.posts + 1
                &&& after.opens == before.opens
                &&& after.request == before.request
                &&& after.session == before.session
                &&& action matches FetchAction::Post(post)
                &&& post@ == proxy_request(&request, &session, &sealed)
            } else {
                failed(before, after, action, L8Error::TransportFailed)
            }
        },
        (FetchPhase::Posting, FetchEvent::SendFailed { aborted }, Some(request), Some(session)) => {
            match failure_verdict(request.signal, before.posts < FETCH_RETRY_ATTEMPTS, aborted) {
                NetworkStateResponse::ProxyError(why) => {
                    &&& states_after == states
                    &&& failed(before, after, action, why)
                },
                _ => {
                    &&& after.request == before.request
                    &&& after.session == before.session
                    &&& fetch_rotate(before, states, after, states_after, action)
                },
            }
        },
        (
            FetchPhase::Posting,
            FetchEvent::Responded { status, text, message },
            Some(request),
            Some(session),
        ) => {
            match verdict(before.posts < FETCH_RETRY_ATTEMPTS, status, text, message) {
                NetworkStateResponse::ProxyError(why) => {
                    &&& states_after == states
                    &&& failed(before, after, action, why)
                },
                NetworkStateResponse::Reinitialize => {
                    &&& after.request == before.request
                    &&& after.session == before.session
                    &&& fetch_rotate(before, states, after, states_after, action)
                },
                NetworkStateResponse::ProviderResponse(sealed) => {
                    &&& states_after == states
                    &&& if before.opens == 0 {
                        &&& after.phase == FetchPhase::Opening
                        &&& after.posts == before.posts
                        &&& after.opens == 1
                        &&& after.request == before.request
                        &&& after.session == before.session
                        &&& action == (FetchAction::Open {
                            client: session.init_tunnel_result.client,
                            message: sealed,
                        })
                    } else {
                        failed(before, after, action, L8Error::OutOfTurn)
                    }
                },
            }
        },
        (FetchPhase::Opening, FetchEvent::Opened(opened), Some(_), Some(_)) => {
            &&& states_after == states
            &&& after.phase == FetchPhase::Done
            &&& after.posts == before.posts
            &&& after.opens == before.opens
            &&& after.request == before.request
            &&& after.session == before.session
            &&& after.options == before.options
            &&& match opened {
                Opened::Decoded(response) => action matches FetchAction::Deliver(made)
                    && reconstructs(made, response),
                Opened::Undecryptable => action == FetchAction::Fail(L8Error::DecryptFailed),
                Opened::Undecodable => action == FetchAction::Fail(L8Error::DecodeFailed),
            }
        },
        (FetchPhase::Rotating, FetchEvent::TunnelReady(Ok(keys)), Some(request), Some(session)) => {
            let open = NetworkStateOpen {
                init_tunnel_result: keys,
                forward_proxy_url: session.forward_proxy_url,
            };
            &&& states_after == states.insert(before.target.base_url@, NetworkState::OPEN(open))
            &&& after.phase == FetchPhase::Sealing
            &&& after.posts == before.posts
            &&& after.opens == before.opens
            &&& after.request == before.request
            &&& after.session == Some(open)
            &&& action matches FetchAction::Seal { client, plaintext }
            &&& client == keys.client
            &&& plaintext@ == request.json()
        },
        (FetchPhase::Rotating, FetchEvent::TunnelReady(Err(why)), Some(_), Some(_)) => {
            &&& states_after == states.insert(
                before.target.base_url@,
                NetworkState::ERRORED(why),
            )
            &&& failed(before, after, action, why)
        },
        _ => {
            &&& states_after == states
            &&& failed(before, after, action, L8Error::OutOfTurn)
        },
    }
}

impl Fetch {
    /// Ends the call in failure.
    fn fail(&mut self, why: L8Error) -> (action: FetchAction)
        ensures
            final(self).target == old(self).target,
            final(self).resource == old(self).resource,
            final(self).options == old(self).options,
            final(self).request == old(self).request,
            final(self).session == old(self).session,
            failed(*old(self), *final(self), action, why),
    {
        self.phase = FetchPhase::Done;
        FetchAction::Fail(why)
    }

    /// Looks at the provider's tunnel.
    fn look(&mut self, cache: &InMemoryCache) -> (action: FetchAction)
        ensures
            fetch_look(*old(self), cache@, *final(self), action),
    {
        match cache.get_network_state(self.target.base_url.as_str()) {
            NetworkStatePoll::Failed(why) => self.fail(why),
            NetworkStatePoll::Wait(delay) => {
                self.phase = FetchPhase::AwaitingSession;
                FetchAction::Sleep(delay)
            },
            NetworkStatePoll::Open(session) => {
                let client = session.init_tunnel_result.client;
                if self.request.is_none() {
                    let options = self.options.take();
                    match L8RequestObject::new_with_boundary(
                        self.target.backend_url.as_str(),
                        &self.resource,
                        options,
                        self.target.boundary.as_str(),
                    ) {
                        Err(why) => {
                            return self.fail(why);
                        },
                        Ok(request) => {
                            self.request = Some(request);
                        },
                    }
                }
                let plaintext = match &self.request {
                    Some(request) => request.to_json(),
                    None => Vec::new(),
                };
                self.session = Some(session);
                self.phase = FetchPhase::Sealing;
                FetchAction::Seal { client, plaintext }
            },
        }
    }

    /// Gives up the tunnel and asks for a new one.
    fn rotate(&mut self, cache: &mut InMemoryCache) -> (action: FetchAction)
        requires
            old(self).session is Some,
        ensures
            final(self).target == old(self).target,
            final(self).resource == old(self).resource,
            final(self).options == old(self).options,
            final(self).request == old(self).request,
            final(self).session == old(self).session,
            final(cache).dev() == old(cache).dev(),
            fetch_rotate(*old(self), old(cache)@, *final(self), final(cache)@, action),
    {
        cache.set_connecting_network_state(self.target.base_url.as_str());
        let mut backend_url = match &self.session {
            Some(session) => session.forward_proxy_url.clone(),
            None => String::new(),
        };
        push_text(&mut backend_url, "/init-tunnel?backend_url=");
        push_text(&mut backend_url, self.target.base_url.as_str());
        self.phase = FetchPhase::Rotating;
        FetchAction::InitTunnel { backend_url }
    }

    /// Acts on what the engine made of an attempt.
    fn conclude(&mut self, cache: &mut InMemoryCache, made: NetworkStateResponse) -> (action:
        FetchAction)
        requires
            old(self).session is Some,
        ensures
            final(self).target == old(self).target,
            final(self).resource == old(self).resource,
            final(self).options == old(self).options,
            final(self).request == old(self).request,
            final(self).session == old(self).session,
            final(cache).dev() == old(cache).dev(),
            match made {
                NetworkStateResponse::ProxyError(why) => final(cache)@ == old(cache)@ && failed(
                    *old(self),
                    *final(self),
                    action,
                    why,
                ),
                NetworkStateResponse::Reinitialize => fetch_rotate(
                    *old(self),
                    old(cache)@,
                    *final(self),
                    final(cache)@,
                    action,
                ),
                NetworkStateResponse::ProviderResponse(sealed) => {
                    &&& final(cache)@ == old(cache)@
                    &&& if old(self).opens == 0 {
                        &&& final(self).phase == FetchPhase::Opening
                        &&& final(self).posts == old(self).posts
                        &&& final(self).opens == 1
                        &&& old(self).session matches Some(session)
                        &&& action == (FetchAction::Open {
                            client: session.init_tunnel_result.client,
                            message: sealed,
                        })
                    } else {
                        failed(*old(self), *final(self), action, L8Error::OutOfTurn)
                    }
                },
            },
    {
        match made {
            NetworkStateResponse::ProxyError(why) => self.fail(why),
            NetworkStateResponse::Reinitialize => self.rotate(cache),
            NetworkStateResponse::ProviderResponse(sealed) => {
                if self.opens != 0 {
                    return self.fail(L8Error::OutOfTurn);
                }
                let client = match &self.session {
                    Some(session) => session.init_tunnel_result.client,
                    None => 0,
                };
                self.opens = 1;
                self.phase = FetchPhase::Opening;
                FetchAction::Open { client, message: sealed }
            },
        }
    }

    /// Begins a call with the given boundary for the body of a form, and takes the first
    /// look at the provider's tunnel. A resource that names no valid URL ends the call at
    /// once.
    pub fn start_with_boundary(
        cache: &InMemoryCache,
        resource: Resource,
        options: Option<RequestOptions>,
        boundary: String,
    ) -> (begun: (Fetch, FetchAction))
        ensures
            begun.0.wf(),
            begun.0.target.boundary == boundary,
            fetch_begins(cache@, resource, options, begun.0, begun.1),
    {
        let backend_url = match retrieve_resource_url(&resource) {
            Ok(url) => Some(url),
            Err(_) => None,
        };
        let base_url = match &backend_url {
            Some(url) => match get_base_url(url.as_str()) {
                Ok(base) => Some(base),
                Err(_) => None,
            },
            None => None,
        };
        match (backend_url, base_url) {
            (Some(backend_url), Some(base_url)) => {
                let mut fetch = Fetch {
                    target: FetchTarget { backend_url, base_url, boundary },
                    resource,
                    options,
                    request: None,
                    session: None,
                    posts: 0,
                    opens: 0,
                    phase: FetchPhase::AwaitingSession,
                };
                let action = fetch.look(cache);
                (fetch, action)
            },
            _ => {
                let fetch = Fetch {
                    target: FetchTarget {
                        backend_url: String::new(),
                        base_url: String::new(),
                        boundary,
                    },
                    resource,
                    options,
                    request: None,
                    session: None,
                    posts: 0,
                    opens: 0,
                    phase: FetchPhase::Done,
                };
                (fetch, FetchAction::Fail(L8Error::InvalidResource))
            },
        }
    }

    /// Begins a call and takes the first look at the provider's tunnel. The boundary for
    /// the body of a form is drawn at random.
    pub fn start(cache: &InMemoryCache, resource: Resource, options: Option<RequestOptions>) -> (begun:
        (Fetch, FetchAction))
        ensures
            begun.0.wf(),
            fetch_begins(cache@, resource, options, begun.0, begun.1),
    {
        Fetch::start_with_boundary(cache, resource, options, new_boundary())
    }

    /// Takes what happened to the last thing the call asked for, and says what it asks
    /// for next. The registry is written where the call gives up a tunnel and where a new
    /// one is set up or fails.
    pub fn step(&mut self, cache: &mut InMemoryCache, event: FetchEvent) -> (action: FetchAction)
        ensures
            fetch_step(*old(self), old(cache)@, event, *final(self), final(cache)@, action),
            final(cache).dev() == old(cache).dev(),
            old(self).wf() ==> final(self).wf(),
    {
        if self.request.is_none() || self.session.is_none() {
            return match (self.phase, event) {
                (FetchPhase::AwaitingSession, FetchEvent::Slept) => self.look(cache),
                _ => self.fail(L8Error::OutOfTurn),
            };
        }
        let may_rotate = self.posts < FETCH_RETRY_ATTEMPTS;
        match (self.phase, event) {
            (FetchPhase::AwaitingSession, FetchEvent::Slept) => self.look(cache),
            (FetchPhase::Sealing, FetchEvent::Sealed(None)) => self.fail(L8Error::SealFailed),
            (FetchPhase::Sealing, FetchEvent::Sealed(Some(sealed))) => {
                if self.posts < FETCH_RETRY_ATTEMPTS {
                    let post = match (&self.request, &self.session) {
                        (Some(request), Some(session)) => request.l8_send(session, &sealed),
                        _ => {
                            return self.fail(L8Error::OutOfTurn);
                        },
                    };
                    self.posts = self.posts + 1;
                    self.phase = FetchPhase::Posting;
                    FetchAction::Post(post)
                } else {
                    self.fail(L8Error::TransportFailed)
                }
            },
            (FetchPhase::Posting, FetchEvent::SendFailed { aborted }) => {
                let made = match &self.request {
                    Some(request) => request.send_failed(may_rotate, aborted),
                    None => NetworkStateResponse::ProxyError(L8Error::OutOfTurn),
                };
                self.conclude(cache, made)
            },
            (FetchPhase::Posting, FetchEvent::Responded { status, text, message }) => {
                let made = L8RequestObject::handle_response(may_rotate, status, text, message);
                self.conclude(cache, made)
            },
            (FetchPhase::Opening, FetchEvent::Opened(opened)) => {
                self.phase = FetchPhase::Done;
                match opened {
                    Opened::Decoded(response) => FetchAction::Deliver(
                        response.reconstruct_js_response(),
                    ),
                    Opened::Undecryptable => FetchAction::Fail(L8Error::DecryptFailed),
                    Opened::Undecodable => FetchAction::Fail(L8Error::DecodeFailed),
                }
            },
            (FetchPhase::Rotating, FetchEvent::TunnelReady(Ok(keys))) => {
                let forward_proxy_url = match &self.session {
                    Some(session) => session.forward_proxy_url.clone(),
                    None => String::new(),
                };
                let client = keys.client;
                let open = NetworkStateOpen { init_tunnel_result: keys, forward_proxy_url };
                cache.set_open_network_state(self.target.base_url.as_str(), open.clone());
                let plaintext = match &self.request {
                    Some(request) => request.to_json(),
                    None => Vec::new(),
                };
                self.session = Some(open);
                self.phase = FetchPhase::Sealing;
                FetchAction::Seal { client, plaintext }
            },
            (FetchPhase::Rotating, FetchEvent::TunnelReady(Err(why))) => {
                cache.set_errored_network_state(self.target.base_url.as_str(), why.clone());
                self.fail(why)
            },
            _ => self.fail(L8Error::OutOfTurn),
        }
    }
}

/// The URL that a resource names, or `None` where it names none that can be fetched.
pub open spec fn resource_url(resource: &Resource) -> Option<Seq<char>> {
    match resource {
        Resource::Text(text) => if text@.len() > 0 && url_parses(text@) {
            Some(text@)
        } else {
            None
        },
        Resource::Url(text) => if url_parses(text@) {
            Some(text@)
        } else {
            None
        },
        Resource::Request(request) => if request.url@.len() > 0 && url_parses(request.url@) {
            Some(request.url@)
        } else {
            None
        },
        Resource::Other => None,
    }
}

impl Fetch {
    /// What holds of a call at every moment: it has handed no more requests to the
    /// transport than are allowed, and fewer while another one may still follow; it has
    /// handed over no answer to be opened before it is opening one, and exactly one from
    /// then on.
    pub open spec fn wf(&self) -> bool {
        &&& self.posts <= FETCH_RETRY_ATTEMPTS
        &&& match self.phase {
            FetchPhase::AwaitingSession => self.posts < FETCH_RETRY_ATTEMPTS && self.opens == 0,
            FetchPhase::Sealing => self.posts < FETCH_RETRY_ATTEMPTS && self.opens == 0,
            FetchPhase::Posting => 1 <= self.posts && self.opens == 0,
            FetchPhase::Rotating => self.posts < FETCH_RETRY_ATTEMPTS && self.opens == 0,
            FetchPhase::Opening => self.opens == 1,
            FetchPhase::Done => self.opens <= 1,
        }
    }
}

/// A call that has just begun has sent nothing and opened nothing.
pub proof fn lemma_fetch_begins_well(
    before: Fetch,
    states: Map<Seq<char>, NetworkState>,
    after: Fetch,
    action: FetchAction,
)
    requires
        before.phase == FetchPhase::AwaitingSession,
        before.posts == 0,
        before.opens == 0,
        fetch_look(before, states, after, action),
    ensures
        after.wf(),
        !(action is Post),
        !(action is Open),
        !(action is Deliver),
{
}

/// A call never sends more requests to the proxy than are allowed. Every step keeps what
/// holds of a call at every moment; the count of requests goes up by one with every
/// request that a step asks to be sent, and with nothing else; so the requests of a
/// whole call are as many as the count says, which is at most the limit.
pub proof fn lemma_fetch_posts_bounded(
    before: Fetch,
    states: Map<Seq<char>, NetworkState>,
    event: FetchEvent,
    after: Fetch,
    states_after: Map<Seq<char>, NetworkState>,
    action: FetchAction,
)
    requires
        before.wf(),
        fetch_step(before, states, event, after, states_after, action),
    ensures
        after.wf(),
        after.posts <= FETCH_RETRY_ATTEMPTS,
        action is Post ==> after.posts == before.posts + 1,
        !(action is Post) ==> after.posts == before.posts,
{
}

/// A call that succeeds has had exactly one answer opened, and that answer is the one
/// that the last request brought. An answer is handed over to be opened only in the step
/// that receives it from the proxy, and only the first time; the response is delivered
/// only in the step that follows; and after either the call asks for no request again.
pub proof fn lemma_fetch_opens_once(
    before: Fetch,
    states: Map<Seq<char>, NetworkState>,
    event: FetchEvent,
    after: Fetch,
    states_after: Map<Seq<char>, NetworkState>,
    action: FetchAction,
)
    requires
        before.wf(),
        fetch_step(before, states, event, after, states_after, action),
    ensures
        action matches FetchAction::Open { client, message } ==> before.opens == 0 && after.opens
            == 1 && before.phase == FetchPhase::Posting && (event matches FetchEvent::Responded {
            status,
            text,
            message: Some(sealed),
        } && sealed == message && status < 400),
        !(action is Open) ==> after.opens == before.opens,
        action is Deliver ==> before.phase == FetchPhase::Opening && after.opens == 1
            && after.phase == FetchPhase::Done,
        before.phase == FetchPhase::Opening || before.phase == FetchPhase::Done ==> after.phase
            == FetchPhase::Done,
{
}

/// A call sets up a new tunnel only after a request has failed and while another request
/// may follow, so at most one time less than it may send requests; and it never skips
/// the connecting state: it writes to the registry only to mark its provider as
/// connecting, when it gives up a tunnel, and, in the step that ends the handshake it
/// then asked for, to mark the provider as open or as failed.
pub proof fn lemma_fetch_rotation(
    before: Fetch,
    states: Map<Seq<char>, NetworkState>,
    event: FetchEvent,
    after: Fetch,
    states_after: Map<Seq<char>, NetworkState>,
    action: FetchAction,
)
    requires
        before.wf(),
        fetch_step(before, states, event, after, states_after, action),
    ensures
        action is InitTunnel ==> before.phase == FetchPhase::Posting && before.posts
            < FETCH_RETRY_ATTEMPTS && after.phase == FetchPhase::Rotating && states_after
            == states.insert(before.target.base_url@, NetworkState::CONNECTING),
        after.phase == FetchPhase::Rotating ==> action is InitTunnel,
        before.phase == FetchPhase::Rotating ==> states_after == states || (
        states_after.dom() == states.dom().insert(before.target.base_url@) && !(
        states_after[before.target.base_url@] is CONNECTING)),
        before.phase != FetchPhase::Rotating && !(action is InitTunnel) ==> states_after
            == states,
        forall|other: Seq<char>|
            other != before.target.base_url@ ==> entry_of(states_after, other) == entry_of(
                states,
                other,
            ),
{
}

/// A call that looks at a provider's tunnel after another call has given that tunnel up
/// waits: it sees the provider connecting, sleeps, and sends nothing.
pub proof fn lemma_rotation_is_seen(
    before: Fetch,
    states: Map<Seq<char>, NetworkState>,
    after: Fetch,
    states_after: Map<Seq<char>, NetworkState>,
    action: FetchAction,
    other: Fetch,
    other_after: Fetch,
    other_action: FetchAction,
)
    requires
        fetch_rotate(before, states, after, states_after, action),
        other.target.base_url@ == before.target.base_url@,
        fetch_look(other, states_after, other_after, other_action),
    ensures
        other_action == FetchAction::Sleep(FETCH_RETRY_SLEEP_DELAY),
        other_after.phase == FetchPhase::AwaitingSession,
        other_after.posts == other.posts,
        other_after.session == other.session,
{
}

/// Begins a call for a resource with the caller's options.
pub fn fetch(cache: &InMemoryCache, resource: Resource, options: Option<RequestOptions>) -> (begun:
    (Fetch, FetchAction))
    ensures
        begun.0.wf(),
        fetch_begins(cache@, resource, options, begun.0, begun.1),
{
    Fetch::start(cache, resource, options)
}

/// How many of the first `n` actions ask for a request to be sent to the proxy.
pub open spec fn count_posts(actions: Seq<FetchAction>, n: int) -> nat
    decreases n,
{
    if n <= 0 {
        0
    } else {
        count_posts(actions, n - 1) + if actions[n - 1] is Post {
            1nat
        } else {
            0nat
        }
    }
}

/// How many of the first `n` actions ask for an answer to be opened.
pub open spec fn count_opens(actions: Seq<FetchAction>, n: int) -> nat
    decreases n,
{
    if n <= 0 {
        0
    } else {
        count_opens(actions, n - 1) + if actions[n - 1] is Open {
            1nat
        } else {
            0nat
        }
    }
}

/// A run of a call: where the call stood before and after each step, what the registry
/// held before and after it, what happened, and what the call asked for. Between two
/// steps the registry may change in any way.
pub open spec fn is_run(
    calls: Seq<Fetch>,
    registries: Seq<Map<Seq<char>, NetworkState>>,
    registries_after: Seq<Map<Seq<char>, NetworkState>>,
    events: Seq<FetchEvent>,
    actions: Seq<FetchAction>,
) -> bool {
    &&& calls.len() == actions.len() + 1
    &&& registries.len() == actions.len()
    &&& registries_after.len() == actions.len()
    &&& events.len() == actions.len()
    &&& forall|i: int|
        0 <= i < actions.len() ==> fetch_step(
            calls[i],
            registries[i],
            events[i],
            calls[i + 1],
            registries_after[i],
            #[trigger] actions[i],
        )
}

/// In every run of a call that has just begun, whatever happens and however long it
/// goes on, the call asks for at most as many requests to the proxy as are allowed and
/// for at most one answer to be opened; and once it has delivered a response, it has
/// asked for exactly one answer to be opened.
pub proof fn lemma_run_is_bounded(
    calls: Seq<Fetch>,
    registries: Seq<Map<Seq<char>, NetworkState>>,
    registries_after: Seq<Map<Seq<char>, NetworkState>>,
    events: Seq<FetchEvent>,
    actions: Seq<FetchAction>,
    n: int,
)
    requires
        is_run(calls, registries, registries_after, events, actions),
        calls[0].wf(),
        calls[0].posts == 0,
        calls[0].opens == 0,
        0 <= n <= actions.len(),
    ensures
        calls[n].wf(),
        count_posts(actions, n) == calls[n].posts,
        count_posts(actions, n) <= FETCH_RETRY_ATTEMPTS,
        count_opens(actions, n) == calls[n].opens,
        count_opens(actions, n) <= 1,
        n > 0 && actions[n - 1] is Deliver ==> count_opens(actions, n) == 1,
    decreases n,
{
    if n > 0 {
        lemma_run_is_bounded(calls, registries, registries_after, events, actions, n - 1);
        lemma_fetch_posts_bounded(
            calls[n - 1],
            registries[n - 1],
            events[n - 1],
            calls[n],
            registries_after[n - 1],
            actions[n - 1],
        );
        lemma_fetch_opens_once(
            calls[n - 1],
            registries[n - 1],
            events[n - 1],
            calls[n],
            registries_after[n - 1],
            actions[n - 1],
        );
    }
}

} // verus!
