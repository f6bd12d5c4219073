use harmony::client::ClientKey;
use harmony::config::{Config, ConfigError, ListenAddress};
use harmony::events::LogEvent;
use harmony::limiter::RateLimiter;
use harmony::pool::ServerPool;
use harmony::proxy::{
    admit_target, forward_to, plan_forward, proxy_request, relay, BackendOutcome, ClientReply,
    ForwardRequest, InboundRequest, ProxyAction, LocalAnswer, FORWARD_TIMEOUT_SECS, GATEWAY_TIMEOUT,
    TOO_MANY_REQUESTS,
};

type Request = InboundRequest<&'static str, Vec<u8>>;

fn get(peer: Option<ClientKey>, target: &str) -> Request {
    InboundRequest { peer, method: "GET", path_and_query: Some(target.to_string()), body: Vec::new() }
}

fn local_pool() -> ServerPool {
    ServerPool::new(vec![
        "http://127.0.0.1:8081".to_string(),
        "http://127.0.0.1:8082".to_string(),
        "http://127.0.0.1:8083".to_string(),
    ])
    .unwrap()
}

#[test]
fn a_get_is_forwarded_with_its_path_and_query() {
    let mut pool = local_pool();
    let mut limiter = RateLimiter::default();
    let caller = ClientKey::from_octets(10, 1, 2, 3);
    let decision = proxy_request(get(Some(caller), "/foo?bar=1"), &mut pool, &mut limiter);
    assert_eq!(decision.caller, caller);
    assert_eq!(decision.count, 1);
    assert_eq!(
        decision.action,
        ProxyAction::Forward(ForwardRequest {
            backend: "http://127.0.0.1:8081".to_string(),
            uri: "http://127.0.0.1:8081/foo?bar=1".to_string(),
            method: "GET",
            body: Vec::new(),
            timeout_secs: 30,
        })
    );
}

#[test]
fn method_and_body_go_through_untouched() {
    let request = InboundRequest {
        peer: None,
        method: "POST",
        path_and_query: Some("/submit".to_string()),
        body: vec![0u8, 1, 2, 255],
    };
    let forward = plan_forward(request, "http://a:1".to_string());
    assert_eq!(forward.backend, "http://a:1");
    assert_eq!(forward.uri, "http://a:1/submit");
    assert_eq!(forward.method, "POST");
    assert_eq!(forward.body, vec![0u8, 1, 2, 255]);
    assert_eq!(forward.timeout_secs, FORWARD_TIMEOUT_SECS);
    assert_eq!(FORWARD_TIMEOUT_SECS, 30);
}

#[test]
fn a_request_without_path_goes_to_the_backend_address() {
    let request: Request =
        InboundRequest { peer: None, method: "GET", path_and_query: None, body: Vec::new() };
    let forward = plan_forward(request, "http://a:1".to_string());
    assert_eq!(forward.uri, "http://a:1");
}

#[test]
fn successive_requests_go_round_the_pool() {
    let mut pool = local_pool();
    let mut limiter = RateLimiter::default();
    let mut targets = Vec::new();
    for _ in 0..6 {
        let decision = proxy_request(get(None, "/"), &mut pool, &mut limiter);
        match decision.action {
            ProxyAction::Forward(forward) => targets.push(forward.uri),
            other => panic!("not forwarded: {:?}", other),
        }
    }
    assert_eq!(
        targets,
        vec![
            "http://127.0.0.1:8081/",
            "http://127.0.0.1:8082/",
            "http://127.0.0.1:8083/",
            "http://127.0.0.1:8081/",
            "http://127.0.0.1:8082/",
            "http://127.0.0.1:8083/",
        ]
    );
}

#[test]
fn the_fifty_first_request_gets_429_and_so_does_every_later_one() {
    let mut pool = local_pool();
    let mut limiter = RateLimiter::default();
    let caller = ClientKey::from_octets(10, 0, 0, 9);
    for n in 1..=50u64 {
        let decision = proxy_request(get(Some(caller), "/"), &mut pool, &mut limiter);
        assert_eq!(decision.count, n);
        assert!(matches!(decision.action, ProxyAction::Forward(_)));
    }
    for n in 51..=120u64 {
        let decision = proxy_request(get(Some(caller), "/"), &mut pool, &mut limiter);
        assert_eq!(decision.count, n);
        assert_eq!(
            decision.action,
            ProxyAction::Reject(LocalAnswer { status: 429, body: "Too Many Requests\n".to_string() })
        );
    }
}

#[test]
fn a_refused_request_reaches_no_backend() {
    let mut pool = local_pool();
    let mut limiter = RateLimiter::new(1);
    let greedy = ClientKey::V4(1);
    let modest = ClientKey::V4(2);
    let _ = proxy_request(get(Some(greedy), "/"), &mut pool, &mut limiter);
    let before = pool.snapshot();
    let refused = proxy_request(get(Some(greedy), "/"), &mut pool, &mut limiter);
    assert!(matches!(refused.action, ProxyAction::Reject(_)));
    assert_eq!(pool.snapshot(), before);
    let served = proxy_request(get(Some(modest), "/x"), &mut pool, &mut limiter);
    assert_eq!(served.count, 1);
    match served.action {
        ProxyAction::Forward(forward) => assert_eq!(forward.uri, "http://127.0.0.1:8082/x"),
        other => panic!("not forwarded: {:?}", other),
    }
}

#[test]
fn callers_without_peer_address_share_the_loopback_quota() {
    let mut pool = local_pool();
    let mut limiter = RateLimiter::new(2);
    let loopback = ClientKey::from_octets(127, 0, 0, 1);
    let first = proxy_request(get(None, "/"), &mut pool, &mut limiter);
    assert_eq!((first.caller, first.count), (loopback, 1));
    let second = proxy_request(get(Some(loopback), "/"), &mut pool, &mut limiter);
    assert_eq!((second.caller, second.count), (loopback, 2));
    let third = proxy_request(get(None, "/"), &mut pool, &mut limiter);
    assert_eq!(third.count, 3);
    assert!(matches!(third.action, ProxyAction::Reject(_)));
}

#[test]
fn the_rejection_is_a_429_with_a_plain_body() {
    assert_eq!(TOO_MANY_REQUESTS, 429);
    let rejection = LocalAnswer::too_many_requests();
    assert_eq!(rejection.status, 429);
    assert_eq!(rejection.body, "Too Many Requests\n");
}

#[test]
fn a_target_that_is_a_uri_is_forwarded() {
    for (backend, tail) in [
        ("http://127.0.0.1:8081", "/foo?bar=1"),
        ("http://backend.example", "/a/b/c?x=1&y=2"),
        ("https://[::1]:8443", "/"),
        ("http://127.0.0.1:8081", "/json/{\"k\":1}"),
    ] {
        let action = forward_to(get(None, tail), backend.to_string());
        match action {
            ProxyAction::Forward(forward) => {
                assert_eq!(forward.backend, backend);
                assert_eq!(forward.uri, format!("{}{}", backend, tail));
            }
            other => panic!("not forwarded: {:?}", other),
        }
    }
}

#[test]
fn a_target_that_is_no_uri_cannot_be_sent() {
    for (backend, tail) in [
        ("http://bad host", "/"),
        ("127.0.0.1:8081", "/foo"),
        ("http://", "/foo"),
        ("http://a:1", "/with space"),
        ("", ""),
    ] {
        let action = forward_to(get(None, tail), backend.to_string());
        assert_eq!(
            action,
            ProxyAction::Unroutable {
                backend: backend.to_string(),
                uri: format!("{}{}", backend, tail),
            }
        );
    }
}

#[test]
fn an_unroutable_request_still_counts_and_rotates() {
    let mut pool =
        ServerPool::new(vec!["http://bad host".to_string(), "http://a:1".to_string()]).unwrap();
    let mut limiter = RateLimiter::default();
    let first = proxy_request(get(None, "/"), &mut pool, &mut limiter);
    assert_eq!(first.count, 1);
    assert!(matches!(first.action, ProxyAction::Unroutable { .. }));
    let second = proxy_request(get(None, "/"), &mut pool, &mut limiter);
    assert_eq!(second.count, 2);
    assert!(matches!(second.action, ProxyAction::Forward(_)));
}

#[test]
fn the_verdict_on_the_target_decides_between_send_and_give_up() {
    let forward = || ForwardRequest {
        backend: "http://a:1".to_string(),
        uri: "http://a:1/p".to_string(),
        method: "PUT",
        body: vec![7u8],
        timeout_secs: 9,
    };
    assert_eq!(admit_target(forward(), true), ProxyAction::Forward(forward()));
    assert_eq!(
        admit_target(forward(), false),
        ProxyAction::Unroutable { backend: "http://a:1".to_string(), uri: "http://a:1/p".to_string() }
    );
}

#[test]
fn the_answer_of_the_backend_goes_back_as_it_came() {
    let answer = (200u16, vec![("content-type", "text/plain")], "Hello from Server 1!\n");
    let reply: ClientReply<_, String> = relay(BackendOutcome::Answered(answer.clone()));
    assert_eq!(reply, ClientReply::Verbatim(answer));
    let error_page = (500u16, Vec::<(&str, &str)>::new(), "boom");
    let reply: ClientReply<_, String> = relay(BackendOutcome::Answered(error_page.clone()));
    assert_eq!(reply, ClientReply::Verbatim(error_page));
}

#[test]
fn a_failure_of_the_backend_is_handed_on() {
    let reply: ClientReply<u8, &str> = relay(BackendOutcome::Failed("connection refused"));
    assert_eq!(reply, ClientReply::Failure("connection refused"));
}

#[test]
fn a_backend_that_takes_too_long_is_answered_for_with_504() {
    assert_eq!(GATEWAY_TIMEOUT, 504);
    let reply: ClientReply<u8, &str> = relay(BackendOutcome::TimedOut);
    assert_eq!(
        reply,
        ClientReply::Local(LocalAnswer { status: 504, body: "Gateway Timeout\n".to_string() })
    );
    assert_eq!(LocalAnswer::gateway_timeout().status, 504);
}

#[test]
fn an_accepted_request_logs_its_caller_and_its_backend() {
    let mut pool = local_pool();
    let mut limiter = RateLimiter::new(1);
    let caller = ClientKey::V6(1);
    let served = proxy_request(get(Some(caller), "/"), &mut pool, &mut limiter);
    assert_eq!(
        served.events(),
        vec![
            LogEvent::RequestReceived { caller },
            LogEvent::RequestSent { backend: "http://127.0.0.1:8081".to_string() },
        ]
    );
    let refused = proxy_request(get(Some(caller), "/"), &mut pool, &mut limiter);
    assert_eq!(refused.events(), vec![LogEvent::RateLimited { caller }]);
}

#[test]
fn the_default_configuration_is_the_local_one() {
    let config = Config::default();
    assert_eq!(config.listen, ListenAddress { ip: ClientKey::V4(0x7F00_0001), port: 8080 });
    assert_eq!(
        config.backends,
        vec!["http://127.0.0.1:8081", "http://127.0.0.1:8082", "http://127.0.0.1:8083"]
    );
    assert_eq!(config.threshold, 50);
    assert_eq!(config.health_interval_secs, 20);
}

#[test]
fn a_configuration_builds_the_state_it_describes() {
    let config = Config {
        listen: ListenAddress { ip: ClientKey::from_octets(0, 0, 0, 0), port: 9000 },
        backends: vec!["http://a:1".to_string(), "http://b:2".to_string()],
        threshold: 3,
        health_interval_secs: 7,
    };
    let mut balancer = match config.build() {
        Ok(balancer) => balancer,
        Err(e) => panic!("refused: {:?}", e),
    };
    assert_eq!(balancer.pool.snapshot(), vec!["http://a:1", "http://b:2"]);
    assert_eq!(balancer.limiter.limit(), 3);
    assert_eq!(balancer.limiter.count(ClientKey::fallback()), 0);
    assert_eq!(balancer.probe.interval_secs(), 7);
    assert_eq!(balancer.pool.select_next(), "http://a:1");
}

#[test]
fn a_configuration_without_backends_is_refused() {
    let config = Config { backends: Vec::new(), ..Config::default() };
    assert!(matches!(config.build(), Err(ConfigError::NoBackends)));
}
