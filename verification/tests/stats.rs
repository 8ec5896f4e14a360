use xenom_miner::stats::{route, same_bytes, MinerStats, RateSample, StatsRoute, StatsTracker};

#[test]
fn counters_start_at_zero() {
    let t = StatsTracker::new(3);
    let s = t.get_stats();
    assert_eq!(s.gpu_count, 3);
    assert_eq!(s.per_gpu_sample, vec![RateSample { hashes: 0, elapsed_nanos: 0 }; 3]);
    assert_eq!((s.uptime_secs, s.current_height, s.total_hashes), (0, 0, 0));
    assert_eq!((s.accepted_shares, s.rejected_shares), (0, 0));
    assert!(!s.mining);
    assert_eq!(s.last_solution_time, None);
    assert_eq!(StatsTracker::new(0).get_stats().per_gpu_sample.len(), 0);
}

#[test]
fn hashes_add_up_and_samples_go_to_their_device() {
    let mut t = StatsTracker::new(2);
    t.update_hashrate(1000, 2_000_000_000, Some(1), 5);
    t.update_hashrate(500, 1_000_000_000, Some(0), 6);
    t.update_hashrate(7, 9, Some(2), 7);
    t.update_hashrate(3, 4, None, 8);
    let s = t.get_stats();
    assert_eq!(s.total_hashes, 1510);
    assert_eq!(s.uptime_secs, 8);
    assert_eq!(
        s.per_gpu_sample,
        vec![
            RateSample { hashes: 500, elapsed_nanos: 1_000_000_000 },
            RateSample { hashes: 1000, elapsed_nanos: 2_000_000_000 },
        ]
    );
    let rate_mhs = |r: &RateSample| r.hashes as f64 / (r.elapsed_nanos as f64 / 1e9) / 1_000_000.0;
    assert_eq!(rate_mhs(&s.per_gpu_sample[0]), 0.0005);
    assert_eq!(rate_mhs(&s.per_gpu_sample[1]), 0.0005);
}

#[test]
fn shares_are_counted() {
    let mut t = StatsTracker::new(1);
    t.increment_accepted(10);
    t.increment_accepted(20);
    t.increment_rejected();
    t.update_height(77);
    t.set_mining(true);
    let s = t.get_stats();
    assert_eq!((s.accepted_shares, s.rejected_shares), (2, 1));
    assert_eq!(s.last_solution_time, Some(20));
    assert_eq!(s.current_height, 77);
    assert!(s.mining);
    t.set_mining(false);
    assert!(!t.get_stats().mining);
    assert_eq!(t.get_stats().total_hashes, 0);
}

#[test]
fn requests_are_routed_by_their_path() {
    assert_eq!(route("/stats"), StatsRoute::Stats);
    assert_eq!(route("/api/stats"), StatsRoute::Stats);
    assert_eq!(route("/health"), StatsRoute::Health);
    for path in ["", "/", "/stats/", "/Stats", "/api", "/health?x=1", "stats", "/healthy"] {
        assert_eq!(route(path), StatsRoute::NotFound, "{:?}", path);
    }
    assert_eq!(StatsRoute::Stats.status_code(), 200);
    assert_eq!(StatsRoute::Health.status_code(), 200);
    assert_eq!(StatsRoute::NotFound.status_code(), 404);
}

#[test]
fn fixed_answers_are_given_word_for_word() {
    assert_eq!(StatsRoute::Stats.fixed_body(), None);
    assert_eq!(StatsRoute::Health.fixed_body(), Some(r#"{"status":"ok"}"#));
    assert_eq!(StatsRoute::NotFound.fixed_body(), Some(r#"{"error":"not found"}"#));
    assert!(StatsRoute::Stats.allows_any_origin());
    assert!(!StatsRoute::Health.allows_any_origin());
    assert!(!StatsRoute::NotFound.allows_any_origin());
}

#[test]
fn byte_strings_are_compared_whole() {
    assert!(same_bytes(b"", b""));
    assert!(same_bytes(b"abc", b"abc"));
    assert!(!same_bytes(b"abc", b"abd"));
    assert!(!same_bytes(b"abc", b"ab"));
    assert!(!same_bytes(b"ab", b"abc"));
}

#[test]
fn default_counters_are_those_of_a_miner_without_devices() {
    let s = MinerStats::default();
    assert_eq!(s.gpu_count, 0);
    assert!(s.per_gpu_sample.is_empty());
    assert_eq!((s.uptime_secs, s.current_height, s.total_hashes), (0, 0, 0));
    assert_eq!((s.accepted_shares, s.rejected_shares), (0, 0));
    assert!(!s.mining);
    assert_eq!(s.last_solution_time, None);
}
