use load_balancer::addr::{parse_backend, AddrError, BackendAddr};
use load_balancer::pool::{pool_from_list, PoolError, UpstreamPool};

fn addr(host: &str, port: u16) -> BackendAddr {
    BackendAddr { host: host.as_bytes().to_vec(), port }
}

fn list(items: &[&str]) -> Vec<Vec<u8>> {
    items.iter().map(|s| s.as_bytes().to_vec()).collect()
}

fn host_port(a: &BackendAddr) -> (String, u16) {
    (String::from_utf8(a.host.clone()).unwrap(), a.port)
}

#[test]
fn parses_host_and_port() {
    let a = parse_backend(b"10.0.0.1:8080").unwrap();
    assert_eq!(host_port(&a), ("10.0.0.1".to_string(), 8080));
    let b = parse_backend(b"[::1]:443").unwrap();
    assert_eq!(host_port(&b), ("[::1]".to_string(), 443));
    let c = parse_backend(b"example.com:0").unwrap();
    assert_eq!(host_port(&c), ("example.com".to_string(), 0));
    let d = parse_backend(b"h:65535").unwrap();
    assert_eq!(d.port, 65535);
}

#[test]
fn rejects_malformed_addresses() {
    assert_eq!(parse_backend(b"10.0.0.1").err(), Some(AddrError::MissingPort));
    assert_eq!(parse_backend(b"").err(), Some(AddrError::MissingPort));
    assert_eq!(parse_backend(b":8080").err(), Some(AddrError::EmptyHost));
    assert_eq!(parse_backend(b"host:").err(), Some(AddrError::BadPort));
    assert_eq!(parse_backend(b"host:65536").err(), Some(AddrError::BadPort));
    assert_eq!(parse_backend(b"host:123456").err(), Some(AddrError::BadPort));
    assert_eq!(parse_backend(b"host:80a").err(), Some(AddrError::BadPort));
}

#[test]
fn empty_pool_is_refused() {
    assert_eq!(UpstreamPool::new(Vec::new()).err(), Some(PoolError::Empty));
    assert_eq!(pool_from_list(&Vec::new()).err(), Some(PoolError::Empty));
}

#[test]
fn invalid_entry_is_named() {
    let r = pool_from_list(&list(&["10.0.0.1:8080", "nope", "x:99999"]));
    assert_eq!(
        r.err(),
        Some(PoolError::InvalidAddress { index: 1, error: AddrError::MissingPort })
    );
}

#[test]
fn selects_in_order_and_cycles() {
    let mut pool = UpstreamPool::new(vec![addr("a", 1), addr("b", 2), addr("c", 3)]).unwrap();
    assert_eq!(pool.len(), 3);
    let picks: Vec<u16> = (0..7).map(|_| pool.select().port).collect();
    assert_eq!(picks, vec![1, 2, 3, 1, 2, 3, 1]);
}

#[test]
fn each_window_of_n_picks_each_backend_once() {
    let n = 4;
    let backends: Vec<BackendAddr> = (0..n).map(|i| addr("h", i as u16)).collect();
    let mut pool = UpstreamPool::new(backends).unwrap();
    let picks: Vec<u16> = (0..20).map(|_| pool.select().port).collect();
    for k in 0..(20 - n) {
        let mut window: Vec<u16> = picks[k..k + n].to_vec();
        // the window is the first round rotated by k mod n
        let rotated: Vec<u16> = (0..n).map(|i| picks[(i + k % n) % n]).collect();
        assert_eq!(window, rotated);
        window.sort();
        assert_eq!(window, vec![0, 1, 2, 3]);
    }
}

#[test]
fn pool_from_list_keeps_order() {
    let mut pool = pool_from_list(&list(&["10.0.0.1:8080", "10.0.0.2:8080"])).unwrap();
    assert_eq!(host_port(pool.backend(1)), ("10.0.0.2".to_string(), 8080));
    assert_eq!(host_port(&pool.select()), ("10.0.0.1".to_string(), 8080));
    assert_eq!(host_port(&pool.select()), ("10.0.0.2".to_string(), 8080));
    assert_eq!(host_port(&pool.select()), ("10.0.0.1".to_string(), 8080));
}
