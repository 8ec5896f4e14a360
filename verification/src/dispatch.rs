//! Choosing the engine of a search, and what takes its place when the
//! accelerator is not there.

use crate::bigendian::pow256;
use crate::brute::{attempted, run_bruteforce};
use crate::evaluator::{some_fails, vector_of, Solution};
use crate::genetic::{run_ga, searched, ChildDraw};
use crate::gpu_miner::BackendState;
use crate::random::RandomSource;
use crate::target::Target;
use vstd::prelude::*;

verus! {

/// The engines of a search.
#[derive(Clone, Copy, Debug, PartialEq, Eq, Structural)]
pub enum Engine {
    CpuBruteForce,
    CpuGenetic,
    GpuGenetic,
    GpuBruteForce,
}

/// What the caller asked for.
#[derive(Clone, Copy, Debug, PartialEq, Eq, Structural)]
pub struct EngineChoice {
    /// Brute force on the host in place of the genetic search.
    pub brute: bool,
    /// Run on the accelerator.
    pub gpu: bool,
    /// On the accelerator, brute force in place of the genetic search.
    pub gpu_brute: bool,
}

/// The engine on the host that does what `engine` does.
pub open spec fn host_equivalent(engine: Engine) -> Engine {
    match engine {
        Engine::GpuGenetic => Engine::CpuGenetic,
        Engine::GpuBruteForce => Engine::CpuBruteForce,
        other => other,
    }
}

/// The engine that the caller asked for, the backend left aside.
pub open spec fn preferred_engine(choice: EngineChoice) -> Engine {
    if choice.gpu {
        if choice.gpu_brute {
            Engine::GpuBruteForce
        } else {
            Engine::GpuGenetic
        }
    } else if choice.brute {
        Engine::CpuBruteForce
    } else {
        Engine::CpuGenetic
    }
}

/// The engine that runs: the preferred one, or its equivalent on the host
/// where the backend is degraded.
pub open spec fn chosen_engine(choice: EngineChoice, backend: BackendState) -> Engine {
    if backend == BackendState::Ready {
        preferred_engine(choice)
    } else {
        host_equivalent(preferred_engine(choice))
    }
}

/// Whether an engine runs on the accelerator.
pub open spec fn on_device(engine: Engine) -> bool {
    engine == Engine::GpuGenetic || engine == Engine::GpuBruteForce
}

/// The engine on the host that takes the place of `engine` when the
/// accelerator fails. The search is the same to the caller: it ends with a
/// solution or with none.
pub fn fall_back(engine: Engine) -> (r: Engine)
    ensures
        r == host_equivalent(engine),
        !on_device(r),
{
    match engine {
        Engine::GpuGenetic => Engine::CpuGenetic,
        Engine::GpuBruteForce => Engine::CpuBruteForce,
        Engine::CpuGenetic => Engine::CpuGenetic,
        Engine::CpuBruteForce => Engine::CpuBruteForce,
    }
}

/// Selects the engine of a search from what the caller asked for and the
/// state of the backend.
pub fn select_engine(choice: &EngineChoice, backend: BackendState) -> (engine: Engine)
    ensures
        engine == chosen_engine(*choice, backend),
        on_device(engine) ==> backend == BackendState::Ready && choice.gpu,
{
    let preferred = if choice.gpu {
        if choice.gpu_brute {
            Engine::GpuBruteForce
        } else {
            Engine::GpuGenetic
        }
    } else if choice.brute {
        Engine::CpuBruteForce
    } else {
        Engine::CpuGenetic
    };
    match backend {
        BackendState::Ready => preferred,
        BackendState::Degraded => fall_back(preferred),
    }
}

/// The number of lanes of a search on the host: the number asked for, or,
/// where none was, as many as the machine runs at once, and one at least.
pub fn lane_count(threads: usize, hardware: usize) -> (lanes: usize)
    ensures
        lanes >= 1,
        lanes == if threads > 0 {
            threads
        } else if hardware > 0 {
            hardware
        } else {
            1
        },
{
    if threads > 0 {
        threads
    } else if hardware > 0 {
        hardware
    } else {
        1
    }
}

/// Whoever the backend, and whatever was asked for, some engine runs, and
/// on a degraded backend it runs on the host.
pub proof fn lemma_degraded_runs_on_host(choice: EngineChoice)
    ensures
        !on_device(chosen_engine(choice, BackendState::Degraded)),
        chosen_engine(choice, BackendState::Ready) == preferred_engine(choice),
        host_equivalent(chosen_engine(choice, BackendState::Ready)) == chosen_engine(
            choice,
            BackendState::Degraded,
        ),
{
}

/// How far a search may go.
#[derive(Clone, Copy, Debug, PartialEq, Eq, Structural)]
pub struct SearchLimits {
    /// The length of a mutation vector, in bytes.
    pub mv_len: usize,
    /// The size of the population of the genetic search.
    pub population: usize,
    /// The rounds that the genetic search may run.
    pub generations: usize,
    /// The attempts that brute force may make.
    pub max_attempts: u64,
}

/// Whether a search on the host with these limits makes any attempt at all.
pub open spec fn attempts_something(engine: Engine, limits: SearchLimits) -> bool {
    if host_equivalent(engine) == Engine::CpuBruteForce {
        limits.max_attempts > 0
    } else {
        limits.population > 0 && limits.generations > 0
    }
}

/// Runs a search on the host: the engine asked for, or its equivalent on
/// the host if that is an engine of the accelerator. Whichever engine it
/// is, the search ends with a solution or with none. Brute force makes up
/// to `max_attempts` attempts with `run_bruteforce`; the genetic search
/// runs up to `generations` rounds on a population of `population` with
/// `run_ga`.
pub fn mine_on_host(
    engine: Engine,
    header_prefix: &[u8],
    target: &Target,
    limits: &SearchLimits,
    rng: &mut RandomSource,
) -> (r: Option<Solution>)
    ensures
        r matches Some(s) ==> s.valid_for(header_prefix@, *target) && s.mutation_vector@.len()
            == limits.mv_len && attempts_something(engine, *limits),
        r is None && attempts_something(engine, *limits) ==> some_fails(
            header_prefix@,
            limits.mv_len,
            *target,
        ),
        target@ >= pow256(32) - 1 && attempts_something(engine, *limits) ==> r is Some,
        host_equivalent(engine) == Engine::CpuBruteForce ==> exists|tried: Seq<Seq<u8>>|
            #[trigger] attempted(
                header_prefix@,
                *target,
                limits.mv_len,
                limits.max_attempts,
                tried,
                vector_of(r),
            ),
        host_equivalent(engine) != Engine::CpuBruteForce ==> exists|
            start: Seq<Seq<u8>>,
            tape: Seq<Seq<ChildDraw>>,
        |
            start.len() == limits.population && #[trigger] searched(
                header_prefix@,
                *target,
                limits.mv_len as nat,
                limits.generations as nat,
                start,
                tape,
                vector_of(r),
            ),
{
    match fall_back(engine) {
        Engine::CpuBruteForce => run_bruteforce(
            header_prefix,
            target,
            limits.mv_len,
            limits.max_attempts,
            rng,
        ).solution,
        _ => run_ga(
            header_prefix,
            target,
            limits.mv_len,
            limits.population,
            limits.generations,
            rng,
        ).solution,
    }
}

} // verus!
