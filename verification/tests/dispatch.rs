use xenom_miner::dispatch::{
    fall_back, lane_count, mine_on_host, select_engine, Engine, EngineChoice, SearchLimits,
};
use xenom_miner::evaluator::hash;
use xenom_miner::gpu_miner::BackendState;
use xenom_miner::random::RandomSource;
use xenom_miner::target::Target;

fn choice(brute: bool, gpu: bool, gpu_brute: bool) -> EngineChoice {
    EngineChoice { brute, gpu, gpu_brute }
}

#[test]
fn a_ready_backend_runs_what_was_asked_for() {
    let ready = BackendState::Ready;
    assert_eq!(select_engine(&choice(false, true, false), ready), Engine::GpuGenetic);
    assert_eq!(select_engine(&choice(false, true, true), ready), Engine::GpuBruteForce);
    assert_eq!(select_engine(&choice(true, true, false), ready), Engine::GpuGenetic);
    assert_eq!(select_engine(&choice(true, true, true), ready), Engine::GpuBruteForce);
    assert_eq!(select_engine(&choice(false, false, false), ready), Engine::CpuGenetic);
    assert_eq!(select_engine(&choice(true, false, false), ready), Engine::CpuBruteForce);
    assert_eq!(select_engine(&choice(false, false, true), ready), Engine::CpuGenetic);
    assert_eq!(select_engine(&choice(true, false, true), ready), Engine::CpuBruteForce);
}

#[test]
fn a_degraded_backend_hands_the_search_to_the_host() {
    let degraded = BackendState::Degraded;
    assert_eq!(select_engine(&choice(false, true, false), degraded), Engine::CpuGenetic);
    assert_eq!(select_engine(&choice(false, true, true), degraded), Engine::CpuBruteForce);
    assert_eq!(select_engine(&choice(true, true, false), degraded), Engine::CpuGenetic);
    assert_eq!(select_engine(&choice(false, false, false), degraded), Engine::CpuGenetic);
    assert_eq!(select_engine(&choice(true, false, false), degraded), Engine::CpuBruteForce);
}

#[test]
fn each_engine_has_its_equivalent_on_the_host() {
    assert_eq!(fall_back(Engine::GpuGenetic), Engine::CpuGenetic);
    assert_eq!(fall_back(Engine::GpuBruteForce), Engine::CpuBruteForce);
    assert_eq!(fall_back(Engine::CpuGenetic), Engine::CpuGenetic);
    assert_eq!(fall_back(Engine::CpuBruteForce), Engine::CpuBruteForce);
}

#[test]
fn lanes_are_as_asked_or_as_the_machine_has() {
    assert_eq!(lane_count(4, 16), 4);
    assert_eq!(lane_count(0, 16), 16);
    assert_eq!(lane_count(0, 0), 1);
    assert_eq!(lane_count(1, 0), 1);
}

#[test]
fn every_engine_ends_with_a_solution_or_with_none() {
    let limits = SearchLimits { mv_len: 4, population: 8, generations: 2, max_attempts: 100 };
    let engines =
        [Engine::CpuBruteForce, Engine::CpuGenetic, Engine::GpuGenetic, Engine::GpuBruteForce];
    for (seed, engine) in engines.into_iter().enumerate() {
        let mut rng = RandomSource::seeded(seed as u64);
        let s = mine_on_host(engine, b"h", &Target::max(), &limits, &mut rng).unwrap();
        assert_eq!(s.mutation_vector.len(), 4);
        assert_eq!(s.digest, hash(b"h", &s.mutation_vector));
        assert!(mine_on_host(engine, b"h", &Target::zero(), &limits, &mut rng).is_none());
    }
}

#[test]
fn a_search_that_may_not_try_finds_nothing() {
    let mut rng = RandomSource::seeded(9);
    let limits = SearchLimits { mv_len: 4, population: 8, generations: 2, max_attempts: 0 };
    assert!(mine_on_host(Engine::GpuBruteForce, b"h", &Target::max(), &limits, &mut rng).is_none());
    assert!(mine_on_host(Engine::CpuGenetic, b"h", &Target::max(), &limits, &mut rng).is_some());
    let limits = SearchLimits { mv_len: 4, population: 0, generations: 2, max_attempts: 5 };
    assert!(mine_on_host(Engine::GpuGenetic, b"h", &Target::max(), &limits, &mut rng).is_none());
    assert!(mine_on_host(Engine::CpuBruteForce, b"h", &Target::max(), &limits, &mut rng).is_some());
}
