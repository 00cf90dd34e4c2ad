use crate::constants::{
    INIT_TUNNEL_RETRY_ATTEMPTS, INIT_TUNNEL_RETRY_SLEEP_DELAY, PUBLIC_KEY_LENGTH,
};
use crate::error::{L8Error, TunnelInitError};
use crate::http_caller::{HttpRequest, HttpRequestView};
use crate::json::{json_bytes, json_of_bytes};
use crate::network_state::{InMemoryCache, InitTunnelResult, NetworkState, NetworkStateOpen};
use crate::resource::{base_url_of, get_base_url, url_parses};
use crate::service_provider::ServiceProvider;
use crate::text::{append_bytes, append_text, decimal, decimal_spec, push_text, utf8};
use vstd::prelude::*;

verus! {

/// What the proxy answers to a handshake request.
#[derive(Debug, PartialEq, Eq)]
pub struct InitTunnelResponse {
    pub ephemeral_public_key: Vec<u8>,
    pub t_b_hash: Vec<u8>,
    pub int_rp_jwt: String,
    pub int_fp_jwt: String,
    pub server_id: String,
    pub static_public_key: Vec<u8>,
}

/// Where a handshake stands.
#[derive(Clone, Copy, Debug, PartialEq, Eq, Structural)]
pub enum InitTunnelPhase {
    /// A request is on its way.
    Sending,
    /// The last request failed; the next one waits for the delay to pass.
    Sleeping,
    /// The proxy has answered; the key exchange client checks the answer.
    Verifying,
    /// The handshake has ended.
    Done,
}

/// What happened to the last thing a handshake asked for.
#[derive(Debug, PartialEq, Eq)]
pub enum InitTunnelEvent {
    /// The request did not reach the proxy.
    SendFailed,
    /// The proxy answered: what its answer decodes to, or `None` where it does not decode.
    Responded(Option<InitTunnelResponse>),
    /// The delay has passed.
    Slept,
    /// The key exchange client has checked the answer and accepts it, or does not.
    Verified(bool),
}

/// What a handshake asks for next.
#[derive(Debug, PartialEq, Eq)]
pub enum InitTunnelAction {
    /// Send this request; answer with `SendFailed` or `Responded`.
    Send(HttpRequest),
    /// Wait for so many milliseconds; answer with `Slept`.
    Sleep(i32),
    /// Let the key exchange client check the proxy's answer, whose two public keys have
    /// the length of a public key; answer with `Verified`.
    Verify {
        client: u64,
        server_id: String,
        static_public_key: Vec<u8>,
        ephemeral_public_key: Vec<u8>,
        t_b_hash: Vec<u8>,
    },
    /// The handshake has ended, with the tunnel's keys or an error.
    Done(Result<InitTunnelResult, L8Error>),
}

/// A handshake with the proxy for one tunnel.
#[derive(Debug, PartialEq, Eq)]
pub struct InitTunnel {
    /// The proxy's handshake endpoint, with the provider as a parameter.
    pub backend_url: String,
    /// The key exchange client, by the number under which its owner keeps it.
    pub client: u64,
    /// The client's ephemeral public key.
    pub public_key: Vec<u8>,
    /// The number of the request that was sent last.
    pub attempt: u32,
    pub phase: InitTunnelPhase,
    /// The tokens of the proxy's answer, once it has answered.
    pub int_rp_jwt: String,
    pub int_fp_jwt: String,
}

/// The body of a handshake request: a JSON object with the client's public key.
pub open spec fn init_body(public_key: Seq<u8>) -> Seq<u8> {
    utf8("{\"public_key\":"@) + json_of_bytes(public_key) + utf8("}"@)
}

/// The handshake request with the given number.
pub open spec fn init_request(backend_url: Seq<char>, public_key: Seq<u8>, attempt: nat) -> HttpRequestView {
    HttpRequestView {
        method: "POST"@,
        url: backend_url,
        headers: seq![
            ("Content-Length"@, "application/json"@),
            ("Retry-count"@, decimal_spec(attempt)),
        ],
        body: init_body(public_key),
    }
}

/// The two public keys of the proxy's answer have the length of a public key, so that
/// the key exchange client can take them.
pub open spec fn holds_keys(response: InitTunnelResponse) -> bool {
    &&& response.static_public_key@.len() == PUBLIC_KEY_LENGTH
    &&& response.ephemeral_public_key@.len() == PUBLIC_KEY_LENGTH
}

/// One step of a handshake: from where it stood and what happened to where it stands and
/// what it asks for next.
///
/// A request that did not reach the proxy is sent again after a delay, until the last
/// allowed attempt has failed. An answer that does not decode, one whose keys do not
/// have the length of a key, and one that the key exchange client does not accept, end
/// the handshake. What happens out of turn ends it too.
pub open spec fn init_step(
    before: InitTunnel,
    event: InitTunnelEvent,
    after: InitTunnel,
    action: InitTunnelAction,
) -> bool {
    match (before.phase, event) {
        (InitTunnelPhase::Sending, InitTunnelEvent::SendFailed) => if before.attempt
            >= INIT_TUNNEL_RETRY_ATTEMPTS {
            &&& after == (InitTunnel { phase: InitTunnelPhase::Done, ..before })
            &&& action == InitTunnelAction::Done(
                Err(L8Error::TunnelInit(TunnelInitError::Unreachable)),
            )
        } else {
            &&& after == (InitTunnel { phase: InitTunnelPhase::Sleeping, ..before })
            &&& action == InitTunnelAction::Sleep(INIT_TUNNEL_RETRY_SLEEP_DELAY)
        },
        (InitTunnelPhase::Sleeping, InitTunnelEvent::Slept) => if before.attempt
            >= INIT_TUNNEL_RETRY_ATTEMPTS {
            &&& after == (InitTunnel { phase: InitTunnelPhase::Done, ..before })
            &&& action == InitTunnelAction::Done(
                Err(L8Error::TunnelInit(TunnelInitError::Unreachable)),
            )
        } else {
            &&& after == (InitTunnel {
                phase: InitTunnelPhase::Sending,
                attempt: (before.attempt + 1) as u32,
                ..before
            })
            &&& action matches InitTunnelAction::Send(request)
            &&& request@ == init_request(
                before.backend_url@,
                before.public_key@,
                (before.attempt + 1) as nat,
            )
        },
        (InitTunnelPhase::Sending, InitTunnelEvent::Responded(None)) => {
            &&& after == (InitTunnel { phase: InitTunnelPhase::Done, ..before })
            &&& action == InitTunnelAction::Done(
                Err(L8Error::TunnelInit(TunnelInitError::MalformedResponse)),
            )
        },
        (InitTunnelPhase::Sending, InitTunnelEvent::Responded(Some(response))) => if holds_keys(
            response,
        ) {
            &&& after == (InitTunnel {
                phase: InitTunnelPhase::Verifying,
                int_rp_jwt: response.int_rp_jwt,
                int_fp_jwt: response.int_fp_jwt,
                ..before
            })
            &&& action == (InitTunnelAction::Verify {
                client: before.client,
                server_id: response.server_id,
                static_public_key: response.static_public_key,
                ephemeral_public_key: response.ephemeral_public_key,
                t_b_hash: response.t_b_hash,
            })
        } else {
            &&& after == (InitTunnel { phase: InitTunnelPhase::Done, ..before })
            &&& action == InitTunnelAction::Done(
                Err(L8Error::TunnelInit(TunnelInitError::MalformedResponse)),
            )
        },
        (InitTunnelPhase::Verifying, InitTunnelEvent::Verified(accepted)) => {
            &&& after == (InitTunnel { phase: InitTunnelPhase::Done, ..before })
            &&& action == InitTunnelAction::Done(
                if accepted {
                    Ok(
                        InitTunnelResult {
                            client: before.client,
                            int_rp_jwt: before.int_rp_jwt,
                            int_fp_jwt: before.int_fp_jwt,
                        },
                    )
                } else {
                    Err(L8Error::TunnelInit(TunnelInitError::HandshakeRejected))
                },
            )
        },
        _ => {
            &&& after == (InitTunnel { phase: InitTunnelPhase::Done, ..before })
            &&& action == InitTunnelAction::Done(Err(L8Error::OutOfTurn))
        },
    }
}

impl InitTunnel {
    /// The handshake has sent at least one request and no more than are allowed.
    pub open spec fn wf(&self) -> bool {
        1 <= self.attempt <= INIT_TUNNEL_RETRY_ATTEMPTS
    }

    /// The request with the number of the current attempt.
    fn request(&self) -> (request: HttpRequest)
        ensures
            request@ == init_request(self.backend_url@, self.public_key@, self.attempt as nat),
    {
        let mut body: Vec<u8> = Vec::new();
        let key = json_bytes(self.public_key.as_slice());
        append_text(&mut body, "{\"public_key\":");
        append_bytes(&mut body, key.as_slice());
        append_text(&mut body, "}");
        assert(body@ =~= init_body(self.public_key@));
        let mut headers: Vec<(String, String)> = Vec::new();
        headers.push(("Content-Length".to_owned(), "application/json".to_owned()));
        headers.push(("Retry-count".to_owned(), decimal(self.attempt)));
        let request = HttpRequest {
            method: "POST".to_owned(),
            url: self.backend_url.clone(),
            headers,
            body,
        };
        assert(request@.headers =~= init_request(
            self.backend_url@,
            self.public_key@,
            self.attempt as nat,
        ).headers);
        request
    }

    /// Begins a handshake with the proxy at `backend_url` for a key exchange client and
    /// its ephemeral public key, and asks for the first request to be sent.
    pub fn new(backend_url: String, client: u64, public_key: Vec<u8>) -> (begun: (
        InitTunnel,
        InitTunnelAction,
    ))
        ensures
            begun.0.backend_url == backend_url,
            begun.0.client == client,
            begun.0.public_key == public_key,
            begun.0.attempt == 1,
            begun.0.phase == InitTunnelPhase::Sending,
            begun.0.wf(),
            begun.1 matches InitTunnelAction::Send(request) && request@ == init_request(
                backend_url@,
                public_key@,
                1,
            ),
    {
        let tunnel = InitTunnel {
            backend_url,
            client,
            public_key,
            attempt: 1,
            phase: InitTunnelPhase::Sending,
            int_rp_jwt: String::new(),
            int_fp_jwt: String::new(),
        };
        let request = tunnel.request();
        (tunnel, InitTunnelAction::Send(request))
    }

    /// Takes what happened to the last thing the handshake asked for, and says what it
    /// asks for next.
    pub fn step(&mut self, event: InitTunnelEvent) -> (action: InitTunnelAction)
        ensures
            init_step(*old(self), event, *final(self), action),
    {
        match (self.phase, event) {
            (InitTunnelPhase::Sending, InitTunnelEvent::SendFailed) => {
                if self.attempt >= INIT_TUNNEL_RETRY_ATTEMPTS {
                    self.phase = InitTunnelPhase::Done;
                    InitTunnelAction::Done(Err(L8Error::TunnelInit(TunnelInitError::Unreachable)))
                } else {
                    self.phase = InitTunnelPhase::Sleeping;
                    InitTunnelAction::Sleep(INIT_TUNNEL_RETRY_SLEEP_DELAY)
                }
            },
            (InitTunnelPhase::Sleeping, InitTunnelEvent::Slept) => {
                if self.attempt >= INIT_TUNNEL_RETRY_ATTEMPTS {
                    self.phase = InitTunnelPhase::Done;
                    InitTunnelAction::Done(Err(L8Error::TunnelInit(TunnelInitError::Unreachable)))
                } else {
                    self.attempt = self.attempt + 1;
                    self.phase = InitTunnelPhase::Sending;
                    InitTunnelAction::Send(self.request())
                }
            },
            (InitTunnelPhase::Sending, InitTunnelEvent::Responded(None)) => {
                self.phase = InitTunnelPhase::Done;
                InitTunnelAction::Done(
                    Err(L8Error::TunnelInit(TunnelInitError::MalformedResponse)),
                )
            },
            (InitTunnelPhase::Sending, InitTunnelEvent::Responded(Some(response))) => {
                if response.static_public_key.len() != PUBLIC_KEY_LENGTH
                    || response.ephemeral_public_key.len() != PUBLIC_KEY_LENGTH {
                    self.phase = InitTunnelPhase::Done;
                    return InitTunnelAction::Done(
                        Err(L8Error::TunnelInit(TunnelInitError::MalformedResponse)),
                    );
                }
                self.phase = InitTunnelPhase::Verifying;
                self.int_rp_jwt = response.int_rp_jwt;
                self.int_fp_jwt = response.int_fp_jwt;
                InitTunnelAction::Verify {
                    client: self.client,
                    server_id: response.server_id,
                    static_public_key: response.static_public_key,
                    ephemeral_public_key: response.ephemeral_public_key,
                    t_b_hash: response.t_b_hash,
                }
            },
            (InitTunnelPhase::Verifying, InitTunnelEvent::Verified(accepted)) => {
                self.phase = InitTunnelPhase::Done;
                if accepted {
                    InitTunnelAction::Done(
                        Ok(
                            InitTunnelResult {
                                client: self.client,
                                int_rp_jwt: self.int_rp_jwt.clone(),
                                int_fp_jwt: self.int_fp_jwt.clone(),
                            },
                        ),
                    )
                } else {
                    InitTunnelAction::Done(
                        Err(L8Error::TunnelInit(TunnelInitError::HandshakeRejected)),
                    )
                }
            },
            _ => {
                self.phase = InitTunnelPhase::Done;
                InitTunnelAction::Done(Err(L8Error::OutOfTurn))
            },
        }
    }
}

/// A handshake never sends more requests than are allowed: every step keeps the number
/// of the last request between one and the limit, and a request that a step asks for
/// carries that number in its `Retry-count` header.
pub proof fn lemma_init_attempts_bounded(
    before: InitTunnel,
    event: InitTunnelEvent,
    after: InitTunnel,
    action: InitTunnelAction,
)
    requires
        before.wf(),
        init_step(before, event, after, action),
    ensures
        after.wf(),
        before.attempt <= after.attempt <= before.attempt + 1,
        action matches InitTunnelAction::Send(request) ==> after.attempt == before.attempt + 1
            && request@.headers[1] == ("Retry-count"@, decimal_spec(after.attempt as nat)),
{
}

/// The key exchange client is only ever asked to check keys that have the length of a
/// public key.
pub proof fn lemma_verified_keys_have_length(
    before: InitTunnel,
    event: InitTunnelEvent,
    after: InitTunnel,
    action: InitTunnelAction,
)
    requires
        init_step(before, event, after, action),
    ensures
        action matches InitTunnelAction::Verify {
            client,
            server_id,
            static_public_key,
            ephemeral_public_key,
            t_b_hash,
        } ==> static_public_key@.len() == PUBLIC_KEY_LENGTH && ephemeral_public_key@.len()
            == PUBLIC_KEY_LENGTH,
{
}

/// How many of the first `n` actions ask for a request to be sent.
pub open spec fn count_sends(actions: Seq<InitTunnelAction>, n: int) -> nat
    decreases n,
{
    if n <= 0 {
        0
    } else {
        count_sends(actions, n - 1) + if actions[n - 1] is Send {
            1nat
        } else {
            0nat
        }
    }
}

/// In every run of a handshake that has just begun, whatever happens, the handshake asks
/// for at most as many requests as are allowed, the first one included.
pub proof fn lemma_init_run_is_bounded(
    handshakes: Seq<InitTunnel>,
    events: Seq<InitTunnelEvent>,
    actions: Seq<InitTunnelAction>,
    n: int,
)
    requires
        handshakes.len() == actions.len() + 1,
        events.len() == actions.len(),
        forall|i: int|
            0 <= i < actions.len() ==> init_step(
                handshakes[i],
                events[i],
                handshakes[i + 1],
                #[trigger] actions[i],
            ),
        handshakes[0].attempt == 1,
        0 <= n <= actions.len(),
    ensures
        handshakes[n].wf(),
        1 + count_sends(actions, n) == handshakes[n].attempt,
        1 + count_sends(actions, n) <= INIT_TUNNEL_RETRY_ATTEMPTS,
    decreases n,
{
    if n > 0 {
        lemma_init_run_is_bounded(handshakes, events, actions, n - 1);
        lemma_init_attempts_bounded(
            handshakes[n - 1],
            events[n - 1],
            handshakes[n],
            actions[n - 1],
        );
        assert(!(actions[n - 1] is Send) ==> handshakes[n].attempt == handshakes[n - 1].attempt);
    }
}

/// Begins a handshake with the proxy at `backend_url`.
pub fn init_tunnel(backend_url: String, client: u64, public_key: Vec<u8>) -> (begun: (
    InitTunnel,
    InitTunnelAction,
))
    ensures
        begun.0.backend_url == backend_url,
        begun.0.client == client,
        begun.0.public_key == public_key,
        begun.0.attempt == 1,
        begun.0.phase == InitTunnelPhase::Sending,
        begun.1 matches InitTunnelAction::Send(request) && request@ == init_request(
            backend_url@,
            public_key@,
            1,
        ),
{
    InitTunnel::new(backend_url, client, public_key)
}

/// A handshake that is to be run for a provider, and where its outcome goes.
#[derive(Debug, PartialEq, Eq)]
pub struct TunnelTask {
    /// The provider's base URL, under which the registry keeps its tunnel.
    pub base_url: String,
    /// The proxy's handshake endpoint, with the provider as a parameter.
    pub backend_url: String,
    pub forward_proxy_url: String,
}

/// The proxy's handshake endpoint for a provider.
pub open spec fn handshake_url(forward_proxy_url: Seq<char>, base_url: Seq<char>) -> Seq<char> {
    forward_proxy_url + "/init-tunnel?backend_url="@ + base_url
}

/// The registry after the first `n` providers were marked as connecting.
pub open spec fn marked_connecting(
    states: Map<Seq<char>, NetworkState>,
    providers: Seq<ServiceProvider>,
    n: int,
) -> Map<Seq<char>, NetworkState>
    decreases n,
{
    if n <= 0 {
        states
    } else {
        marked_connecting(states, providers, n - 1).insert(
            base_url_of(providers[n - 1].url@),
            NetworkState::CONNECTING,
        )
    }
}

/// After providers were started, each of them is connecting, whatever the registry held
/// before: the handshake that is then scheduled for it is the only way on to an open or
/// a failed tunnel.
pub proof fn lemma_started_are_connecting(
    states: Map<Seq<char>, NetworkState>,
    providers: Seq<ServiceProvider>,
    n: int,
    i: int,
)
    requires
        0 <= i < n <= providers.len(),
    ensures
        marked_connecting(states, providers, n).contains_key(base_url_of(providers[i].url@)),
        marked_connecting(states, providers, n)[base_url_of(providers[i].url@)]
            is CONNECTING,
    decreases n,
{
    if i < n - 1 {
        lemma_started_are_connecting(states, providers, n - 1, i);
    }
}

/// The task for a provider.
pub open spec fn is_task_for(
    task: TunnelTask,
    forward_proxy_url: Seq<char>,
    provider: ServiceProvider,
) -> bool {
    &&& task.base_url@ == base_url_of(provider.url@)
    &&& task.backend_url@ == handshake_url(forward_proxy_url, base_url_of(provider.url@))
    &&& task.forward_proxy_url@ == forward_proxy_url
}

/// Starts the tunnels of the given providers: each provider, in order, is marked as
/// connecting under its base URL, and a handshake with the proxy is scheduled for it. The
/// handshakes themselves are left to be run. A provider whose URL is not valid stops the
/// work: the providers before it are started, it and those after it are not.
pub fn init_encrypted_tunnels(
    cache: &mut InMemoryCache,
    forward_proxy_url: &str,
    service_providers: &Vec<ServiceProvider>,
    dev_flag: Option<bool>,
) -> (started: (Vec<TunnelTask>, Result<(), L8Error>))
    ensures
        final(cache).dev() == (match dev_flag {
            Some(flag) => flag,
            None => old(cache).dev(),
        }),
        started.0@.len() <= service_providers@.len(),
        forall|i: int|
            0 <= i < started.0@.len() ==> url_parses((#[trigger] service_providers@[i]).url@)
                && is_task_for(started.0@[i], forward_proxy_url@, service_providers@[i]),
        final(cache)@ == marked_connecting(
            old(cache)@,
            service_providers@,
            started.0@.len() as int,
        ),
        started.1 is Ok <==> started.0@.len() == service_providers@.len(),
        started.1 is Err ==> started.1 == Err::<(), L8Error>(L8Error::InvalidResource)
            && !url_parses(service_providers@[started.0@.len() as int].url@),
{
    match dev_flag {
        Some(flag) => {
            cache.set_dev_flag(flag);
        },
        None => {},
    }
    let mut tasks: Vec<TunnelTask> = Vec::new();
    let mut i: usize = 0;
    while i < service_providers.len()
        invariant
            i <= service_providers@.len(),
            tasks@.len() == i,
            cache.dev() == (match dev_flag {
                Some(flag) => flag,
                None => old(cache).dev(),
            }),
            forall|j: int|
                0 <= j < i ==> url_parses((#[trigger] service_providers@[j]).url@)
                    && is_task_for(tasks@[j], forward_proxy_url@, service_providers@[j]),
            cache@ == marked_connecting(old(cache)@, service_providers@, i as int),
        decreases service_providers@.len() - i,
    {
        let base_url = match get_base_url(service_providers[i].url.as_str()) {
            Ok(base) => base,
            Err(_) => {
                return (tasks, Err(L8Error::InvalidResource));
            },
        };
        cache.set_connecting_network_state(base_url.as_str());
        let mut backend_url = String::new();
        push_text(&mut backend_url, forward_proxy_url);
        push_text(&mut backend_url, "/init-tunnel?backend_url=");
        push_text(&mut backend_url, base_url.as_str());
        let mut proxy = String::new();
        push_text(&mut proxy, forward_proxy_url);
        assert(backend_url@ =~= handshake_url(
            forward_proxy_url@,
            base_url_of(service_providers@[i as int].url@),
        ));
        assert(proxy@ =~= forward_proxy_url@);
        let task = TunnelTask { base_url, backend_url, forward_proxy_url: proxy };
        assert(is_task_for(task, forward_proxy_url@, service_providers@[i as int]));
        let ghost before = tasks@;
        tasks.push(task);
        assert forall|j: int| 0 <= j < i + 1 implies url_parses(
            (#[trigger] service_providers@[j]).url@,
        ) && is_task_for(tasks@[j], forward_proxy_url@, service_providers@[j]) by {
            if j < i {
                assert(tasks@[j] == before[j]);
            }
        }
        i = i + 1;
    }
    (tasks, Ok(()))
}

impl TunnelTask {
    /// Records how the handshake ended: with keys, the provider's tunnel is open; with an
    /// error, it has failed for that reason.
    pub fn finish(&self, cache: &mut InMemoryCache, outcome: Result<InitTunnelResult, L8Error>)
        ensures
            final(cache).dev() == old(cache).dev(),
            final(cache)@ == old(cache)@.insert(
                self.base_url@,
                match outcome {
                    Ok(keys) => NetworkState::OPEN(
                        NetworkStateOpen {
                            init_tunnel_result: keys,
                            forward_proxy_url: self.forward_proxy_url,
                        },
                    ),
                    Err(why) => NetworkState::ERRORED(why),
                },
            ),
    {
        match outcome {
            Ok(keys) => {
                cache.set_open_network_state(
                    self.base_url.as_str(),
                    NetworkStateOpen {
                        init_tunnel_result: keys,
                        forward_proxy_url: self.forward_proxy_url.clone(),
                    },
                );
            },
            Err(why) => {
                cache.set_errored_network_state(self.base_url.as_str(), why);
            },
        }
    }
}

} // verus!
