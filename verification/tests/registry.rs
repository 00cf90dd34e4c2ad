use layer8_interceptor::constants::{
    FETCH_RETRY_ATTEMPTS, FETCH_RETRY_SLEEP_DELAY, INIT_TUNNEL_RETRY_ATTEMPTS,
    INIT_TUNNEL_RETRY_SLEEP_DELAY,
};
use layer8_interceptor::error::{L8Error, TunnelInitError};
use layer8_interceptor::init_tunnel::{init_encrypted_tunnels, TunnelTask};
use layer8_interceptor::network_state::{
    InMemoryCache, InitTunnelResult, NetworkState, NetworkStateOpen, NetworkStatePoll,
};
use layer8_interceptor::service_provider::ServiceProvider;

fn open_state(client: u64) -> NetworkStateOpen {
    NetworkStateOpen {
        init_tunnel_result: InitTunnelResult {
            client,
            int_rp_jwt: format!("rp-{}", client),
            int_fp_jwt: format!("fp-{}", client),
        },
        forward_proxy_url: "https://fp.example".to_string(),
    }
}

#[test]
fn constants_have_their_values() {
    assert_eq!(FETCH_RETRY_SLEEP_DELAY, 50);
    assert_eq!(INIT_TUNNEL_RETRY_SLEEP_DELAY, 1000);
    assert_eq!(FETCH_RETRY_ATTEMPTS, 3);
    assert_eq!(INIT_TUNNEL_RETRY_ATTEMPTS, 3);
}

#[test]
fn an_unknown_provider_is_not_initialized() {
    let cache = InMemoryCache::new();
    assert_eq!(cache.get("https://p.example"), None);
    assert_eq!(
        cache.get_network_state("https://p.example"),
        NetworkStatePoll::Failed(L8Error::NotInitialized)
    );
    assert!(!cache.get_dev_flag());
}

#[test]
fn a_provider_goes_from_connecting_to_open() {
    let mut cache = InMemoryCache::new();
    cache.set_connecting_network_state("https://p.example");
    assert_eq!(cache.get("https://p.example"), Some(NetworkState::CONNECTING));
    assert_eq!(cache.get_network_state("https://p.example"), NetworkStatePoll::Wait(50));
    cache.set_open_network_state("https://p.example", open_state(1));
    assert_eq!(cache.get("https://p.example"), Some(NetworkState::OPEN(open_state(1))));
    assert_eq!(
        cache.get_network_state("https://p.example"),
        NetworkStatePoll::Open(open_state(1))
    );
    assert_eq!(cache.get("https://other.example"), None);
}

#[test]
fn a_provider_goes_from_connecting_to_errored() {
    let mut cache = InMemoryCache::new();
    cache.set_connecting_network_state("https://p.example");
    cache.set_errored_network_state(
        "https://p.example",
        L8Error::TunnelInit(TunnelInitError::HandshakeRejected),
    );
    assert_eq!(
        cache.get_network_state("https://p.example"),
        NetworkStatePoll::Failed(L8Error::TunnelInit(TunnelInitError::HandshakeRejected))
    );
}

#[test]
fn a_restart_does_not_reach_a_snapshot() {
    let mut cache = InMemoryCache::new();
    cache.set_connecting_network_state("https://p.example");
    cache.set_open_network_state("https://p.example", open_state(1));
    cache.set_connecting_network_state("https://q.example");
    let snapshot = cache.get_network_state("https://p.example");
    cache.set_connecting_network_state("https://p.example");
    assert_eq!(snapshot, NetworkStatePoll::Open(open_state(1)));
    assert_eq!(cache.get_network_state("https://p.example"), NetworkStatePoll::Wait(50));
    assert_eq!(cache.get("https://q.example"), Some(NetworkState::CONNECTING));
    cache.set_open_network_state("https://p.example", open_state(2));
    assert_eq!(
        cache.get_network_state("https://p.example"),
        NetworkStatePoll::Open(open_state(2))
    );
    assert_eq!(snapshot, NetworkStatePoll::Open(open_state(1)));
}

#[test]
fn tokens_of_an_open_tunnel() {
    let state = open_state(7);
    assert_eq!(state.int_rp_jwt(), "rp-7");
    assert_eq!(state.int_fp_jwt(), "fp-7");
}

#[test]
fn the_dev_flag_is_kept() {
    let mut cache = InMemoryCache::new();
    cache.set_dev_flag(true);
    assert!(cache.get_dev_flag());
    cache.set_connecting_network_state("https://p.example");
    assert!(cache.get_dev_flag());
    cache.set_dev_flag(false);
    assert!(!cache.get_dev_flag());
    assert_eq!(cache.get("https://p.example"), Some(NetworkState::CONNECTING));
}

#[test]
fn tunnels_are_started_for_every_provider() {
    let mut cache = InMemoryCache::new();
    let providers = vec![
        ServiceProvider::new("https://svc.example.com/api?x=1".to_string()),
        ServiceProvider::new("http://localhost:6191".to_string()),
    ];
    let (tasks, outcome) =
        init_encrypted_tunnels(&mut cache, "https://fp.example", &providers, Some(true));
    assert_eq!(outcome, Ok(()));
    assert_eq!(
        tasks,
        vec![
            TunnelTask {
                base_url: "https://svc.example.com".to_string(),
                backend_url: "https://fp.example/init-tunnel?backend_url=https://svc.example.com"
                    .to_string(),
                forward_proxy_url: "https://fp.example".to_string(),
            },
            TunnelTask {
                base_url: "http://localhost:6191".to_string(),
                backend_url: "https://fp.example/init-tunnel?backend_url=http://localhost:6191"
                    .to_string(),
                forward_proxy_url: "https://fp.example".to_string(),
            },
        ]
    );
    assert!(cache.get_dev_flag());
    assert_eq!(cache.get("https://svc.example.com"), Some(NetworkState::CONNECTING));
    assert_eq!(cache.get("http://localhost:6191"), Some(NetworkState::CONNECTING));
    assert_eq!(cache.get("https://svc.example.com/api?x=1"), None);
}

#[test]
fn an_invalid_provider_stops_the_start() {
    let mut cache = InMemoryCache::new();
    cache.set_dev_flag(true);
    let providers = vec![
        ServiceProvider::new("https://a.example".to_string()),
        ServiceProvider::new("not a url".to_string()),
        ServiceProvider::new("https://c.example".to_string()),
    ];
    let (tasks, outcome) = init_encrypted_tunnels(&mut cache, "https://fp.example", &providers, None);
    assert_eq!(outcome, Err(L8Error::InvalidResource));
    assert_eq!(tasks.len(), 1);
    assert_eq!(tasks[0].base_url, "https://a.example");
    assert_eq!(cache.get("https://a.example"), Some(NetworkState::CONNECTING));
    assert_eq!(cache.get("https://c.example"), None);
    assert!(cache.get_dev_flag());
}

#[test]
fn starting_again_overwrites_an_open_tunnel() {
    let mut cache = InMemoryCache::new();
    let providers = vec![ServiceProvider::new("https://a.example/x".to_string())];
    let (tasks, _) = init_encrypted_tunnels(&mut cache, "https://fp.example", &providers, None);
    tasks[0].finish(&mut cache, Ok(open_state(1).init_tunnel_result));
    let snapshot = cache.get_network_state("https://a.example");
    assert_eq!(snapshot, NetworkStatePoll::Open(open_state(1)));
    let (again, outcome) =
        init_encrypted_tunnels(&mut cache, "https://fp.example", &providers, Some(false));
    assert_eq!(outcome, Ok(()));
    assert_eq!(again, tasks);
    assert_eq!(cache.get("https://a.example"), Some(NetworkState::CONNECTING));
    assert_eq!(snapshot, NetworkStatePoll::Open(open_state(1)));
}

#[test]
fn a_finished_task_marks_its_provider() {
    let mut cache = InMemoryCache::new();
    let task = TunnelTask {
        base_url: "https://a.example".to_string(),
        backend_url: "https://fp.example/init-tunnel?backend_url=https://a.example".to_string(),
        forward_proxy_url: "https://fp.example".to_string(),
    };
    cache.set_connecting_network_state("https://a.example");
    task.finish(&mut cache, Err(L8Error::TunnelInit(TunnelInitError::Unreachable)));
    assert_eq!(
        cache.get("https://a.example"),
        Some(NetworkState::ERRORED(L8Error::TunnelInit(TunnelInitError::Unreachable)))
    );
    cache.set_connecting_network_state("https://a.example");
    task.finish(&mut cache, Ok(open_state(3).init_tunnel_result));
    assert_eq!(cache.get("https://a.example"), Some(NetworkState::OPEN(open_state(3))));
}
