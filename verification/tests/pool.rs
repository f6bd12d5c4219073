use harmony::config::ConfigError;
use harmony::pool::ServerPool;

fn pool_of(names: &[&str]) -> ServerPool {
    let backends: Vec<String> = names.iter().map(|name| name.to_string()).collect();
    ServerPool::new(backends).unwrap()
}

fn select(pool: &mut ServerPool, rounds: usize) -> Vec<String> {
    let mut picked = Vec::new();
    for _ in 0..rounds {
        picked.push(pool.select_next());
    }
    picked
}

#[test]
fn six_requests_on_three_backends_cycle_twice() {
    let mut pool = pool_of(&["A", "B", "C"]);
    assert_eq!(select(&mut pool, 6), vec!["A", "B", "C", "A", "B", "C"]);
}

#[test]
fn every_backend_gets_its_share_over_whole_cycles() {
    let names = ["http://a:1", "http://b:2", "http://c:3", "http://d:4"];
    let mut pool = pool_of(&names);
    let picked = select(&mut pool, 4 * 25);
    for name in names {
        assert_eq!(picked.iter().filter(|p| p.as_str() == name).count(), 25);
    }
}

#[test]
fn selection_k_is_the_backend_at_k_mod_n() {
    let names = ["A", "B", "C", "D", "E"];
    let mut pool = pool_of(&names);
    let picked = select(&mut pool, 23);
    for (k, backend) in picked.iter().enumerate() {
        assert_eq!(backend, names[k % names.len()]);
    }
}

#[test]
fn no_backend_repeats_within_one_cycle() {
    let mut pool = pool_of(&["A", "B", "C", "D"]);
    let _ = select(&mut pool, 2);
    let mut cycle = select(&mut pool, 4);
    assert_eq!(cycle, vec!["C", "D", "A", "B"]);
    cycle.sort();
    cycle.dedup();
    assert_eq!(cycle.len(), 4);
}

#[test]
fn a_whole_cycle_restores_the_order() {
    let mut pool = pool_of(&["A", "B", "C"]);
    let before = pool.snapshot();
    let _ = select(&mut pool, 3);
    assert_eq!(pool.snapshot(), before);
}

#[test]
fn a_single_backend_serves_every_request() {
    let mut pool = pool_of(&["only"]);
    assert_eq!(select(&mut pool, 3), vec!["only", "only", "only"]);
    assert_eq!(pool.len(), 1);
}

#[test]
fn a_repeated_address_keeps_both_places() {
    let mut pool = pool_of(&["A", "A", "B"]);
    assert_eq!(select(&mut pool, 6), vec!["A", "A", "B", "A", "A", "B"]);
}

#[test]
fn an_empty_pool_is_refused() {
    assert!(matches!(ServerPool::new(Vec::new()), Err(ConfigError::NoBackends)));
}

#[test]
fn snapshot_follows_the_rotation_and_does_not_rotate() {
    let mut pool = pool_of(&["A", "B", "C"]);
    assert_eq!(pool.snapshot(), vec!["A", "B", "C"]);
    assert_eq!(pool.snapshot(), vec!["A", "B", "C"]);
    assert_eq!(pool.select_next(), "A");
    assert_eq!(pool.snapshot(), vec!["B", "C", "A"]);
    assert_eq!(pool.select_next(), "B");
}

#[test]
fn the_length_never_changes() {
    let mut pool = pool_of(&["A", "B", "C"]);
    assert_eq!(pool.len(), 3);
    let _ = select(&mut pool, 7);
    assert_eq!(pool.len(), 3);
    assert_eq!(pool.snapshot().len(), 3);
}
