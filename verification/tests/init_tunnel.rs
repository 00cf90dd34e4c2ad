use layer8_interceptor::error::{L8Error, TunnelInitError};
use layer8_interceptor::fetch::{fetch, FetchAction};
use layer8_interceptor::host::Resource;
use layer8_interceptor::json::tmp_encrypt;
use layer8_interceptor::http_caller::{
    ActualHttpCaller, HttpCallerResponse, HttpRequest, MockHttpCaller,
};
use layer8_interceptor::init_tunnel::{
    init_encrypted_tunnels, init_tunnel, InitTunnel, InitTunnelAction, InitTunnelEvent,
    InitTunnelPhase, InitTunnelResponse,
};
use layer8_interceptor::network_state::{
    InMemoryCache, InitTunnelResult, NetworkState, NetworkStatePoll,
};
use layer8_interceptor::service_provider::ServiceProvider;

const URL: &str = "https://fp.example/init-tunnel?backend_url=https://svc.example.com";

fn request(attempt: u32) -> HttpRequest {
    HttpRequest {
        method: "POST".to_string(),
        url: URL.to_string(),
        headers: vec![
            ("Content-Length".to_string(), "application/json".to_string()),
            ("Retry-count".to_string(), attempt.to_string()),
        ],
        body: b"{\"public_key\":[1,2,255]}".to_vec(),
    }
}

fn answer() -> InitTunnelResponse {
    InitTunnelResponse {
        ephemeral_public_key: vec![9; 32],
        t_b_hash: vec![8; 32],
        int_rp_jwt: "test_jwt1".to_string(),
        int_fp_jwt: "test_jwt2".to_string(),
        server_id: "server123".to_string(),
        static_public_key: vec![7; 32],
    }
}

#[test]
fn the_first_request_carries_the_public_key() {
    let (tunnel, action) = init_tunnel(URL.to_string(), 5, vec![1, 2, 255]);
    assert_eq!(action, InitTunnelAction::Send(request(1)));
    assert_eq!(tunnel.attempt, 1);
    assert_eq!(tunnel.phase, InitTunnelPhase::Sending);
    let (again, action) = InitTunnel::new(URL.to_string(), 5, vec![1, 2, 255]);
    assert_eq!(action, InitTunnelAction::Send(request(1)));
    assert_eq!(again, tunnel);
}

#[test]
fn a_handshake_that_is_accepted_gives_the_keys() {
    let (mut tunnel, _) = init_tunnel(URL.to_string(), 5, vec![1, 2, 255]);
    let action = tunnel.step(InitTunnelEvent::Responded(Some(answer())));
    assert_eq!(
        action,
        InitTunnelAction::Verify {
            client: 5,
            server_id: "server123".to_string(),
            static_public_key: vec![7; 32],
            ephemeral_public_key: vec![9; 32],
            t_b_hash: vec![8; 32],
        }
    );
    assert_eq!(tunnel.phase, InitTunnelPhase::Verifying);
    let action = tunnel.step(InitTunnelEvent::Verified(true));
    assert_eq!(
        action,
        InitTunnelAction::Done(Ok(InitTunnelResult {
            client: 5,
            int_rp_jwt: "test_jwt1".to_string(),
            int_fp_jwt: "test_jwt2".to_string(),
        }))
    );
    assert_eq!(tunnel.phase, InitTunnelPhase::Done);
}

#[test]
fn a_handshake_that_is_rejected_fails() {
    let (mut tunnel, _) = init_tunnel(URL.to_string(), 5, vec![1, 2, 255]);
    tunnel.step(InitTunnelEvent::Responded(Some(answer())));
    assert_eq!(
        tunnel.step(InitTunnelEvent::Verified(false)),
        InitTunnelAction::Done(Err(L8Error::TunnelInit(TunnelInitError::HandshakeRejected)))
    );
}

#[test]
fn an_answer_that_does_not_decode_fails() {
    let (mut tunnel, _) = init_tunnel(URL.to_string(), 5, vec![1, 2, 255]);
    assert_eq!(
        tunnel.step(InitTunnelEvent::Responded(None)),
        InitTunnelAction::Done(Err(L8Error::TunnelInit(TunnelInitError::MalformedResponse)))
    );
    assert_eq!(tunnel.phase, InitTunnelPhase::Done);
}

#[test]
fn an_answer_with_keys_of_the_wrong_length_fails() {
    let mut short_static = answer();
    short_static.static_public_key = vec![7; 31];
    let mut long_ephemeral = answer();
    long_ephemeral.ephemeral_public_key = vec![9; 33];
    let mut empty = answer();
    empty.static_public_key = vec![];
    for bad in [short_static, long_ephemeral, empty] {
        let (mut tunnel, _) = init_tunnel(URL.to_string(), 5, vec![1, 2, 255]);
        assert_eq!(
            tunnel.step(InitTunnelEvent::Responded(Some(bad))),
            InitTunnelAction::Done(Err(L8Error::TunnelInit(TunnelInitError::MalformedResponse)))
        );
        assert_eq!(tunnel.phase, InitTunnelPhase::Done);
    }
    let mut odd_hash = answer();
    odd_hash.t_b_hash = vec![1];
    let (mut tunnel, _) = init_tunnel(URL.to_string(), 5, vec![1, 2, 255]);
    assert!(matches!(
        tunnel.step(InitTunnelEvent::Responded(Some(odd_hash))),
        InitTunnelAction::Verify { .. }
    ));
}

#[test]
fn a_failed_request_is_sent_again_after_a_delay() {
    let (mut tunnel, _) = init_tunnel(URL.to_string(), 5, vec![1, 2, 255]);
    assert_eq!(tunnel.step(InitTunnelEvent::SendFailed), InitTunnelAction::Sleep(1000));
    assert_eq!(tunnel.step(InitTunnelEvent::Slept), InitTunnelAction::Send(request(2)));
    assert_eq!(tunnel.step(InitTunnelEvent::SendFailed), InitTunnelAction::Sleep(1000));
    assert_eq!(tunnel.step(InitTunnelEvent::Slept), InitTunnelAction::Send(request(3)));
    let action = tunnel.step(InitTunnelEvent::Responded(Some(answer())));
    assert!(matches!(action, InitTunnelAction::Verify { .. }));
}

#[test]
fn init_failure() {
    let mut cache = InMemoryCache::new();
    let providers = vec![ServiceProvider::new("https://svc.example.com/api".to_string())];
    let (tasks, outcome) =
        init_encrypted_tunnels(&mut cache, "https://fp.example", &providers, None);
    assert_eq!(outcome, Ok(()));
    assert_eq!(tasks[0].backend_url, URL);
    assert_eq!(cache.get("https://svc.example.com"), Some(NetworkState::CONNECTING));

    let (mut tunnel, mut action) = init_tunnel(tasks[0].backend_url.clone(), 1, vec![1, 2, 255]);
    let mut sent = 0;
    let mut slept = 0;
    let ended = loop {
        action = match action {
            InitTunnelAction::Send(post) => {
                sent += 1;
                assert_eq!(post, request(sent));
                tunnel.step(InitTunnelEvent::SendFailed)
            }
            InitTunnelAction::Sleep(delay) => {
                assert_eq!(delay, 1000);
                slept += 1;
                tunnel.step(InitTunnelEvent::Slept)
            }
            InitTunnelAction::Verify { .. } => unreachable!(),
            InitTunnelAction::Done(ended) => break ended,
        };
    };
    assert_eq!(sent, 3);
    assert_eq!(slept, 2);
    assert_eq!(ended, Err(L8Error::TunnelInit(TunnelInitError::Unreachable)));
    tasks[0].finish(&mut cache, ended);
    assert_eq!(
        cache.get_network_state("https://svc.example.com"),
        NetworkStatePoll::Failed(L8Error::TunnelInit(TunnelInitError::Unreachable))
    );
    let (_, action) =
        fetch(&cache, Resource::Text("https://svc.example.com/api?x=1".to_string()), None);
    assert_eq!(action, FetchAction::Fail(L8Error::TunnelInit(TunnelInitError::Unreachable)));
}

#[test]
fn what_happens_out_of_turn_ends_the_handshake() {
    let (mut tunnel, _) = init_tunnel(URL.to_string(), 5, vec![]);
    assert_eq!(
        tunnel.step(InitTunnelEvent::Verified(true)),
        InitTunnelAction::Done(Err(L8Error::OutOfTurn))
    );
    assert_eq!(
        tunnel.step(InitTunnelEvent::SendFailed),
        InitTunnelAction::Done(Err(L8Error::OutOfTurn))
    );
    let (mut tunnel, _) = init_tunnel(URL.to_string(), 5, vec![]);
    assert_eq!(tunnel.step(InitTunnelEvent::Slept), InitTunnelAction::Done(Err(L8Error::OutOfTurn)));
}

#[test]
fn the_test_double_answers_with_its_bytes() {
    let double = MockHttpCaller { data: vec![1, 2, 3], init: false };
    let answer = double.send(&request(1));
    assert_eq!(answer, Some(HttpCallerResponse::Raw(vec![1, 2, 3])));
    let answer = answer.unwrap();
    assert_eq!(answer.status(), 200);
    assert_eq!(answer.content_length(), Some(3));
    assert_eq!(answer.bytes(), vec![1, 2, 3]);
    let double = MockHttpCaller { data: vec![], init: true };
    assert_eq!(double.send(&request(1)), None);
    let real =
        HttpCallerResponse::Reqwest { status: 404, content_length: Some(10), body: vec![0; 10] };
    assert_eq!(real.status(), 404);
    assert_eq!(real.content_length(), Some(10));
    let chunked = HttpCallerResponse::Reqwest { status: 200, content_length: None, body: vec![1] };
    assert_eq!(chunked.content_length(), None);
    assert_eq!(chunked.bytes(), vec![1]);
    assert_eq!(ActualHttpCaller, ActualHttpCaller);
}

#[test]
fn error_statuses_become_errors() {
    for (status, error) in [(200, false), (399, false), (400, true), (599, true), (600, false)] {
        let answer = HttpCallerResponse::Reqwest { status, content_length: None, body: vec![1] };
        assert_eq!(answer.error_for_status_ref().is_err(), error);
        let checked = answer.error_for_status();
        if error {
            assert_eq!(checked, Err(status));
        } else {
            assert_eq!(
                checked,
                Ok(HttpCallerResponse::Reqwest { status, content_length: None, body: vec![1] })
            );
        }
    }
    let raw = HttpCallerResponse::Raw(vec![4, 0, 4]);
    assert_eq!(raw.error_for_status_ref(), Ok(&HttpCallerResponse::Raw(vec![4, 0, 4])));
    assert_eq!(raw.error_for_status(), Ok(HttpCallerResponse::Raw(vec![4, 0, 4])));
}

#[test]
fn bytes_wrapped_without_sealing() {
    let message = tmp_encrypt(vec![1, 2, 3]);
    assert_eq!(message.nonce, vec![0; 12]);
    assert_eq!(message.data, vec![1, 2, 3]);
}
