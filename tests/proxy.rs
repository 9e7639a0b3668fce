use load_balancer::headers::RequestHeaders;
use load_balancer::lb::LB;
use load_balancer::peer::PeerPolicy;
use load_balancer::pool::PoolError;
use load_balancer::session::{
    next_step, Action, Event, Phase, SessionContext, STATUS_BAD_GATEWAY, STATUS_SERVER_ERROR,
};
use load_balancer::tls::IdentityMap;
use load_balancer::addr::BackendAddr;

fn balancer() -> LB {
    let addrs: Vec<Vec<u8>> = vec![b"10.0.0.1:8080".to_vec(), b"10.0.0.2:8080".to_vec()];
    LB::from_list(&addrs, b"example.com", b"example.com").unwrap()
}

fn target(a: &BackendAddr) -> String {
    format!("{}:{}", String::from_utf8(a.host.clone()).unwrap(), a.port)
}

fn host_of(h: &RequestHeaders) -> Vec<String> {
    (0..h.len())
        .filter(|&i| h.name_at(i).eq_ignore_ascii_case(b"host"))
        .map(|i| String::from_utf8(h.value_at(i).clone()).unwrap())
        .collect()
}

/// Runs one request through the session machine; `forward_ok` says whether
/// the backend answers. Returns the backend chosen, the Host values sent and
/// the last action.
fn run_request(lb: &mut LB, tls: bool, forward_ok: bool) -> (String, Vec<String>, Action) {
    let mut ctx = lb.new_ctx();
    let mut action = ctx.advance(Event::Accepted { tls });
    if tls {
        assert_eq!(action, Action::Handshake);
        action = ctx.advance(Event::Succeeded);
    }
    assert_eq!(action, Action::SelectPeer);
    let peer = lb.upstream_peer();
    assert_eq!(ctx.advance(Event::Succeeded), Action::RewriteRequest);
    let mut headers = RequestHeaders::new();
    headers.append(b"Accept", b"*/*").unwrap();
    lb.upstream_request_filter(&mut headers).unwrap();
    assert_eq!(ctx.advance(Event::Succeeded), Action::Forward);
    let last = if forward_ok {
        assert_eq!(ctx.advance(Event::Succeeded), Action::Relay);
        ctx.advance(Event::Succeeded)
    } else {
        ctx.advance(Event::Failed)
    };
    assert!(!peer.tls);
    assert_eq!(peer.sni, b"example.com".to_vec());
    (target(&peer.addr), host_of(&headers), last)
}

#[test]
fn two_requests_rotate_over_backends() {
    let mut lb = balancer();
    let (t1, h1, a1) = run_request(&mut lb, false, true);
    let (t2, h2, a2) = run_request(&mut lb, false, true);
    assert_eq!(t1, "10.0.0.1:8080");
    assert_eq!(t2, "10.0.0.2:8080");
    assert_eq!(h1, vec!["example.com".to_string()]);
    assert_eq!(h2, vec!["example.com".to_string()]);
    assert_eq!(a1, Action::Close);
    assert_eq!(a2, Action::Close);
}

#[test]
fn refused_backend_gets_gateway_error_and_keeps_its_turn() {
    let mut lb = balancer();
    let (t1, _, a1) = run_request(&mut lb, false, false);
    assert_eq!(t1, "10.0.0.1:8080");
    assert_eq!(a1, Action::SendError { status: STATUS_BAD_GATEWAY });
    let (t2, _, a2) = run_request(&mut lb, false, true);
    assert_eq!(t2, "10.0.0.2:8080");
    assert_eq!(a2, Action::Close);
    let (t3, _, _) = run_request(&mut lb, false, true);
    assert_eq!(t3, "10.0.0.1:8080");
}

#[test]
fn tls_request_is_proxied_like_plaintext() {
    let mut certs = IdentityMap::empty();
    certs.add(b"example.com", 0);
    assert_eq!(certs.select_identity(Some(b"example.com")), Some(0));
    let mut lb = balancer();
    let (t1, h1, a1) = run_request(&mut lb, true, true);
    let (t2, h2, a2) = run_request(&mut lb, false, true);
    assert_eq!(t1, "10.0.0.1:8080");
    assert_eq!(t2, "10.0.0.2:8080");
    assert_eq!(h1, h2);
    assert_eq!(a1, a2);
}

#[test]
fn unknown_server_name_uses_default_identity() {
    let mut with_default = IdentityMap::single(7);
    with_default.add(b"a.example", 1);
    assert_eq!(with_default.select_identity(Some(b"A.Example")), Some(1));
    assert_eq!(with_default.select_identity(Some(b"unknown.example")), Some(7));
    assert_eq!(with_default.select_identity(None), Some(7));

    let mut without = IdentityMap::empty();
    without.add(b"a.example", 1);
    without.add(b"a.example", 2);
    assert_eq!(without.select_identity(Some(b"a.example")), Some(1));
    assert_eq!(without.select_identity(Some(b"unknown.example")), None);
    assert_eq!(without.select_identity(None), None);
}

#[test]
fn failed_handshake_closes_without_response() {
    let mut ctx = SessionContext::new();
    assert_eq!(ctx.advance(Event::Accepted { tls: true }), Action::Handshake);
    assert_eq!(ctx.advance(Event::Failed), Action::Close);
    assert_eq!(ctx.phase, Phase::End);
    assert_eq!(ctx.advance(Event::Succeeded), Action::Ignore);
    assert_eq!(next_step(Phase::Handshake, Event::TimedOut), (Phase::End, Action::Close));
}

#[test]
fn error_statuses_by_phase() {
    assert_eq!(
        next_step(Phase::SelectPeer, Event::Failed),
        (Phase::RespondError, Action::SendError { status: STATUS_SERVER_ERROR })
    );
    assert_eq!(
        next_step(Phase::RewriteRequest, Event::TimedOut),
        (Phase::RespondError, Action::SendError { status: 500 })
    );
    assert_eq!(
        next_step(Phase::Forward, Event::TimedOut),
        (Phase::RespondError, Action::SendError { status: 502 })
    );
    assert_eq!(next_step(Phase::Relay, Event::Failed), (Phase::End, Action::Close));
    assert_eq!(next_step(Phase::RespondError, Event::Succeeded), (Phase::End, Action::Close));
    assert_eq!(next_step(Phase::Forward, Event::ClientClosed), (Phase::End, Action::Close));
    assert_eq!(next_step(Phase::Start, Event::Succeeded), (Phase::Start, Action::Ignore));
}

#[test]
fn peer_policy_builds_descriptor() {
    let policy = PeerPolicy::new(true, b"backend.internal");
    let d = policy.build(BackendAddr { host: b"10.1.1.1".to_vec(), port: 443 });
    assert!(d.tls);
    assert_eq!(d.sni, b"backend.internal".to_vec());
    assert_eq!(target(&d.addr), "10.1.1.1:443");
}

#[test]
fn balancer_refuses_bad_lists() {
    let empty: Vec<Vec<u8>> = Vec::new();
    assert_eq!(LB::from_list(&empty, b"s", b"h").err(), Some(PoolError::Empty));
    let bad: Vec<Vec<u8>> = vec![b"10.0.0.1:80".to_vec(), b"10.0.0.2".to_vec()];
    assert!(matches!(
        LB::from_list(&bad, b"s", b"h").err(),
        Some(PoolError::InvalidAddress { index: 1, .. })
    ));
}
