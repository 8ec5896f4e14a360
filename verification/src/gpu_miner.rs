//! The host side of the accelerated search. A device, where there is one,
//! proposes candidates and breeds populations; every decision is taken
//! here, from what the device handed back, and no solution is accepted
//! that was not hashed again on the host.
//!
//! A search is driven from outside: the caller carries out the action that
//! a step asks for and hands back what happened as the next event.

use crate::bigendian::pow256;
use crate::evaluator::{
    blake3_digest, candidate_bytes, hash, solves, some_fails, verify_candidate, Fitness,
    Solution,
};
use crate::genetic::{
    chunks, first_solving, population_fitness, some_solves, survey, Population, Survey,
};
use crate::random::RandomSource;
use crate::target::Target;
use vstd::prelude::*;

verus! {

/// Candidates handled by one block of a launch.
pub const THREADS_PER_BLOCK: u32 = 256;

/// Blocks of a launch that walks nonces.
pub const NONCE_BLOCKS: u32 = 1024;

/// Candidates of the first batch whose device digest is held against the
/// host's.
pub const VERIFIED_SAMPLE: usize = 3;

/// What probing for a device found.
#[derive(Clone, Copy, Debug)]
pub struct ProbeReport {
    /// A device was found and its driver came up.
    pub device_found: bool,
    /// The compute module was found and loaded.
    pub module_loaded: bool,
    /// The module holds the batch hash entry point.
    pub has_hash_batch: bool,
    /// The module holds the fitness entry point.
    pub has_evaluate_fitness: bool,
    /// The module holds the genetic operators entry point.
    pub has_genetic_operators: bool,
    /// The module holds the nonce-walking entry point.
    pub has_brute_force: bool,
}

/// Whether the backend can take work.
#[derive(Clone, Copy, Debug, PartialEq, Eq, Structural)]
pub enum BackendState {
    /// The device and all it needs are there.
    Ready,
    /// Something is missing: every request is answered as unavailable and
    /// the search belongs on the host.
    Degraded,
}

/// The compute backend as the host sees it. It is probed once, when it is
/// made, and never again.
#[derive(Clone, Copy, Debug)]
pub struct GpuMiner {
    pub population_size: usize,
    pub mv_len: usize,
    pub has_kernels: bool,
    pub has_brute_force: bool,
}

/// How a launch over the population is laid out.
#[derive(Clone, Copy, Debug, PartialEq, Eq, Structural)]
pub struct LaunchPlan {
    pub grid: u32,
    pub block: u32,
}

/// The device memory of a search, acquired once and used for every
/// generation or batch, and the sizes as the device takes them.
#[derive(Clone, Copy, Debug, PartialEq, Eq, Structural)]
pub struct BufferPlan {
    /// Bytes of the current population, and as many of the next.
    pub population_bytes: usize,
    /// Bytes of the digests, 32 for each candidate.
    pub hash_bytes: usize,
    /// Fitness values, one for each candidate.
    pub fitness_len: usize,
    /// Seeds, one for each candidate.
    pub seeds_len: usize,
    pub population_size: u32,
    pub mv_len: u32,
    pub header_len: u32,
    pub launch: LaunchPlan,
}

impl GpuMiner {
    /// The backend for populations of `population_size` mutation vectors of
    /// `mv_len` bytes. It is `Ready` if the probe found a device, the
    /// compute module and the three entry points of the genetic search, and
    /// `Degraded` otherwise; neither is a failure.
    pub fn new(population_size: usize, mv_len: usize, probe: &ProbeReport) -> (m: GpuMiner)
        ensures
            m.population_size == population_size,
            m.mv_len == mv_len,
            m.has_kernels == (probe.device_found && probe.module_loaded && probe.has_hash_batch
                && probe.has_evaluate_fitness && probe.has_genetic_operators),
            m.has_brute_force == (m.has_kernels && probe.has_brute_force),
    {
        let has_kernels = probe.device_found && probe.module_loaded && probe.has_hash_batch
            && probe.has_evaluate_fitness && probe.has_genetic_operators;
        GpuMiner {
            population_size,
            mv_len,
            has_kernels,
            has_brute_force: has_kernels && probe.has_brute_force,
        }
    }

    /// Whether the backend can take work.
    pub open spec fn ready(self) -> bool {
        self.has_kernels
    }

    /// Whether the backend can take work.
    pub fn state(&self) -> (s: BackendState)
        ensures
            s == if self.ready() {
                BackendState::Ready
            } else {
                BackendState::Degraded
            },
    {
        if self.has_kernels {
            BackendState::Ready
        } else {
            BackendState::Degraded
        }
    }

    /// Whether the sizes of a search fit what the device can be told: the
    /// population in bytes and its digests fit in memory, and the counts
    /// handed to a launch fit in 32 bits.
    pub open spec fn fits(self, header_len: nat) -> bool {
        &&& self.population_size * self.mv_len <= usize::MAX
        &&& self.population_size * 32 <= usize::MAX
        &&& self.population_size + THREADS_PER_BLOCK - 1 <= u32::MAX
        &&& self.mv_len <= u32::MAX
        &&& header_len <= u32::MAX
    }

    /// The buffers and the launch layout of a search over a header prefix of
    /// `header_len` bytes: one thread for each candidate, in blocks of
    /// `THREADS_PER_BLOCK`. There is none where the backend is degraded or
    /// the sizes do not fit.
    pub fn buffer_plan(&self, header_len: usize) -> (r: Option<BufferPlan>)
        ensures
            r is Some <==> self.ready() && self.fits(header_len as nat),
            r matches Some(plan) ==> {
                &&& plan.population_bytes == self.population_size * self.mv_len
                &&& plan.hash_bytes == self.population_size * 32
                &&& plan.fitness_len == self.population_size
                &&& plan.seeds_len == self.population_size
                &&& plan.population_size == self.population_size
                &&& plan.mv_len == self.mv_len
                &&& plan.header_len == header_len
                &&& plan.launch.block == THREADS_PER_BLOCK
                &&& plan.launch.grid == (self.population_size + THREADS_PER_BLOCK - 1)
                    / (THREADS_PER_BLOCK as int)
            },
    {
        if !self.has_kernels {
            return None;
        }
        let population_bytes: usize = match self.population_size.checked_mul(self.mv_len) {
            Some(n) => n,
            None => {
                return None;
            },
        };
        let hash_bytes: usize = match self.population_size.checked_mul(32) {
            Some(n) => n,
            None => {
                return None;
            },
        };
        if self.population_size > 0xffff_ff00 || self.mv_len > 0xffff_ffff || header_len
            > 0xffff_ffff {
            return None;
        }
        let population: u32 = self.population_size as u32;
        let grid: u32 = (population + (THREADS_PER_BLOCK - 1)) / THREADS_PER_BLOCK;
        Some(
            BufferPlan {
                population_bytes,
                hash_bytes,
                fitness_len: self.population_size,
                seeds_len: self.population_size,
                population_size: population,
                mv_len: self.mv_len as u32,
                header_len: header_len as u32,
                launch: LaunchPlan { grid, block: THREADS_PER_BLOCK },
            },
        )
    }
}

/// What the host found in a population handed back by the device.
#[derive(Debug)]
pub enum Scan {
    /// The buffer does not hold a population of the backend's sizes.
    Malformed,
    /// A mutation vector meets the target; this is the first that does.
    Found(Solution),
    /// None does. With it comes the fitness of each, in population order.
    Unsolved(Vec<Fitness>),
}

impl GpuMiner {
    /// The mutation vectors that a buffer of the backend's sizes holds.
    pub open spec fn held(self, flat: Seq<u8>) -> Seq<Seq<u8>> {
        chunks(flat, self.mv_len as nat, self.population_size as nat)
    }

    /// Whether a buffer has the length of a population of the backend's
    /// sizes.
    pub open spec fn holds_population(self, flat: Seq<u8>) -> bool {
        flat.len() == self.population_size * self.mv_len
    }

    /// Hashes on the host every mutation vector of a population handed back
    /// by the device, in population order.
    pub fn scan_population(&self, header_prefix: &[u8], target: &Target, flat: &[u8]) -> (r: Scan)
        ensures
            r is Malformed <==> !self.holds_population(flat@),
            r is Found <==> self.holds_population(flat@) && some_solves(
                header_prefix@,
                self.held(flat@),
                *target,
            ),
            self.holds_population(flat@) && self.population_size > 0 && target@ >= pow256(32) - 1
                ==> (r matches Scan::Found(s) && s.mutation_vector@ == self.held(flat@)[0]),
            r matches Scan::Found(s) ==> {
                &&& s.valid_for(header_prefix@, *target)
                &&& s.mutation_vector@.len() == self.mv_len
                &&& exists|i: int|
                    first_solving(header_prefix@, self.held(flat@), *target, i)
                        && s.mutation_vector@ == self.held(flat@)[i]
            },
            r matches Scan::Unsolved(f) ==> f@ == population_fitness(
                header_prefix@,
                self.held(flat@),
                *target,
            ),
    {
        let population = match Population::from_flat(flat, self.population_size, self.mv_len) {
            Some(p) => p,
            None => {
                return Scan::Malformed;
            },
        };
        match survey(header_prefix, target, &population) {
            Survey::Found(s) => {
                proof {
                    let i = choose|i: int|
                        first_solving(header_prefix@, population@, *target, i)
                            && s.mutation_vector@ == population@[i];
                    assert(population@[i].len() == population.mv_len);
                }
                Scan::Found(s)
            },
            Survey::Unsolved(fitness) => Scan::Unsolved(fitness),
        }
    }
}

/// Where an accelerated genetic search stands.
#[derive(Clone, Copy, Debug, PartialEq, Eq, Structural)]
pub enum GaState {
    /// Nothing has been asked of the device yet.
    Idle,
    /// The population of this generation is being fetched for the host to
    /// hash.
    Scanning(usize),
    /// The device is breeding the successor of this generation.
    Breeding(usize),
    /// The search is over.
    Done,
}

/// What the device did since the last step.
#[derive(Debug)]
pub enum GaEvent {
    /// The buffers are acquired and hold a first random population, the
    /// seeds and the target.
    Ready,
    /// The current population, as the device holds it.
    Population(Vec<u8>),
    /// The genetic operators ran and the next population took the place of
    /// the current one.
    Bred,
    /// The device or its driver failed.
    DeviceFailed,
}

/// What the caller is to do next.
#[derive(Debug)]
pub enum GaAction {
    /// Fetch the current population and hand it back.
    Download,
    /// Hand the device this fitness, one value for each individual, and run
    /// the genetic operators on the current population.
    Breed(Vec<Fitness>),
    /// Stop: with the solution, or with none.
    Stop(Option<Solution>),
}

/// Whether a step ended the search without a solution.
pub open spec fn ga_gave_up(next: (GaState, GaAction)) -> bool {
    next.0 == GaState::Done && next.1 == GaAction::Stop(None)
}

impl GpuMiner {
    /// One step of the genetic search in which the device breeds and the
    /// host hashes. The host hashes every mutation vector of each
    /// generation itself, stops at the first that meets the target, and
    /// otherwise has the device breed the next generation from the fitness
    /// it computed. After `generations` generations without a solution the
    /// search stops with none. A degraded backend, a failure of the device,
    /// a buffer of the wrong size or an event that does not belong to the
    /// state also stop the search with none, so that the caller can go on
    /// on the host.
    pub fn mine_with_ga(
        &self,
        header_prefix: &[u8],
        target: &Target,
        generations: usize,
        state: GaState,
        event: GaEvent,
    ) -> (next: (GaState, GaAction))
        ensures
            next.1 is Stop <==> next.0 == GaState::Done,
            !self.ready() ==> ga_gave_up(next),
            next.1 matches GaAction::Stop(Some(s)) ==> s.valid_for(header_prefix@, *target)
                && s.mutation_vector@.len() == self.mv_len,
            self.ready() ==> match (state, event) {
                (GaState::Idle, GaEvent::Ready) => if generations == 0 {
                    ga_gave_up(next)
                } else {
                    next.0 == GaState::Scanning(0) && next.1 == GaAction::Download
                },
                (GaState::Scanning(g), GaEvent::Population(flat)) => if g >= generations
                    || !self.holds_population(flat@) {
                    ga_gave_up(next)
                } else if some_solves(header_prefix@, self.held(flat@), *target) {
                    &&& next.0 == GaState::Done
                    &&& next.1 matches GaAction::Stop(Some(s))
                    &&& exists|i: int|
                        first_solving(header_prefix@, self.held(flat@), *target, i)
                            && s.mutation_vector@ == self.held(flat@)[i]
                } else {
                    &&& next.0 == GaState::Breeding(g)
                    &&& next.1 matches GaAction::Breed(f)
                    &&& f@ == population_fitness(header_prefix@, self.held(flat@), *target)
                },
                (GaState::Breeding(g), GaEvent::Bred) => if g + 1 < generations {
                    next.0 == GaState::Scanning((g + 1) as usize) && next.1 == GaAction::Download
                } else {
                    ga_gave_up(next)
                },
                _ => ga_gave_up(next),
            },
    {
        if !self.has_kernels {
            return (GaState::Done, GaAction::Stop(None));
        }
        match (state, event) {
            (GaState::Idle, GaEvent::Ready) => {
                if generations == 0 {
                    (GaState::Done, GaAction::Stop(None))
                } else {
                    (GaState::Scanning(0), GaAction::Download)
                }
            },
            (GaState::Scanning(g), GaEvent::Population(flat)) => {
                if g >= generations {
                    return (GaState::Done, GaAction::Stop(None));
                }
                match self.scan_population(header_prefix, target, flat.as_slice()) {
                    Scan::Malformed => (GaState::Done, GaAction::Stop(None)),
                    Scan::Found(s) => (GaState::Done, GaAction::Stop(Some(s))),
                    Scan::Unsolved(fitness) => (GaState::Breeding(g), GaAction::Breed(fitness)),
                }
            },
            (GaState::Breeding(g), GaEvent::Bred) => {
                if g < generations && g + 1 < generations {
                    (GaState::Scanning(g + 1), GaAction::Download)
                } else {
                    (GaState::Done, GaAction::Stop(None))
                }
            },
            _ => (GaState::Done, GaAction::Stop(None)),
        }
    }
}

/// Whether `i` is the first candidate that the device flagged.
pub open spec fn first_flagged(flags: Seq<bool>, i: int) -> bool {
    &&& 0 <= i < flags.len()
    &&& flags[i]
    &&& forall|j: int| 0 <= j < i ==> !#[trigger] flags[j]
}

/// The first candidate that the device flagged.
pub fn find_flagged(flags: &[bool]) -> (r: Option<usize>)
    ensures
        r matches Some(i) ==> first_flagged(flags@, i as int),
        r is None ==> forall|j: int| 0 <= j < flags@.len() ==> !#[trigger] flags@[j],
{
    let mut i: usize = 0;
    while i < flags.len()
        invariant
            i <= flags.len(),
            forall|j: int| 0 <= j < i ==> !#[trigger] flags@[j],
        decreases flags.len() - i,
    {
        if flags[i] {
            return Some(i);
        }
        i += 1;
    }
    None
}

/// The digest that the device reported for candidate `i`.
pub open spec fn device_digest(hashes: Seq<u8>, i: int) -> Seq<u8> {
    hashes.subrange(32 * i, 32 * i + 32)
}

/// Whether the device reported the right digest for candidate `i`.
pub open spec fn digest_agrees(
    header_prefix: Seq<u8>,
    candidates: Seq<Seq<u8>>,
    hashes: Seq<u8>,
    i: int,
) -> bool {
    device_digest(hashes, i) == blake3_digest(candidate_bytes(header_prefix, candidates[i]))
}

/// Whether the device reported the right digests for the first
/// `VERIFIED_SAMPLE` candidates, or for all where there are fewer.
pub open spec fn sample_agrees(header_prefix: Seq<u8>, candidates: Seq<Seq<u8>>, hashes: Seq<u8>)
    -> bool {
    forall|i: int|
        0 <= i < candidates.len() && i < VERIFIED_SAMPLE ==> #[trigger] digest_agrees(
            header_prefix,
            candidates,
            hashes,
            i,
        )
}

/// Whether the device is relied on for a batch: it was so far, and this is
/// not the first batch or its sample agrees.
pub open spec fn relied_on(
    trusted: bool,
    batch: usize,
    header_prefix: Seq<u8>,
    candidates: Seq<Seq<u8>>,
    hashes: Seq<u8>,
) -> bool {
    trusted && (batch > 0 || sample_agrees(header_prefix, candidates, hashes))
}

/// Whether 32 bytes of `hashes` from `start` on are `digest`.
fn same_digest(hashes: &[u8], start: usize, digest: &[u8; 32]) -> (r: bool)
    requires
        start + 32 <= hashes.len(),
    ensures
        r == (hashes@.subrange(start as int, start + 32) == digest@),
{
    let mut k: usize = 0;
    while k < 32
        invariant
            k <= 32,
            start + 32 <= hashes.len(),
            forall|j: int| 0 <= j < k ==> hashes@[start + j] == digest@[j],
        decreases 32 - k,
    {
        if hashes[start + k] != digest[k] {
            assert(hashes@.subrange(start as int, start + 32)[k as int] != digest@[k as int]);
            return false;
        }
        k += 1;
    }
    assert(hashes@.subrange(start as int, start + 32) =~= digest@);
    true
}

/// Holds the device's digests of the first candidates of a batch against
/// those that the host computes.
pub fn check_sample(header_prefix: &[u8], candidates: &Population, hashes: &[u8]) -> (r: bool)
    requires
        hashes@.len() == candidates@.len() * 32,
    ensures
        r == sample_agrees(header_prefix@, candidates@, hashes@),
{
    let count: usize = candidates.len();
    let mut i: usize = 0;
    while i < VERIFIED_SAMPLE && i < count
        invariant
            i <= VERIFIED_SAMPLE,
            i <= count,
            count == candidates@.len(),
            hashes@.len() == count * 32,
            forall|j: int|
                0 <= j < i ==> #[trigger] digest_agrees(header_prefix@, candidates@, hashes@, j),
        decreases VERIFIED_SAMPLE - i,
    {
        let digest = hash(header_prefix, candidates.vectors[i].as_slice());
        if !same_digest(hashes, 32 * i, &digest) {
            assert(!digest_agrees(header_prefix@, candidates@, hashes@, i as int));
            return false;
        }
        i += 1;
    }
    true
}

/// Whether `i` is the candidate of a batch that the host accepts. Where
/// the device is relied on, it is the first candidate that the device
/// flagged, if the host finds it to meet the target; where it is not, the
/// first candidate that the host finds to meet the target.
pub open spec fn accepted(
    header_prefix: Seq<u8>,
    candidates: Seq<Seq<u8>>,
    target: Target,
    flags: Seq<bool>,
    relies: bool,
    i: int,
) -> bool {
    if relies {
        first_flagged(flags, i) && i < candidates.len() && solves(
            header_prefix,
            candidates[i],
            target,
        )
    } else {
        first_solving(header_prefix, candidates, target, i)
    }
}

/// At most one candidate is the first that the device flagged.
pub proof fn lemma_first_flagged_unique(flags: Seq<bool>, i: int, k: int)
    requires
        first_flagged(flags, i),
        first_flagged(flags, k),
    ensures
        i == k,
{
    if i < k {
        assert(!flags[i]);
    }
    if k < i {
        assert(!flags[k]);
    }
}

/// The candidate of a batch that the host accepts, hashed on the host.
pub fn pick_candidate(
    header_prefix: &[u8],
    target: &Target,
    candidates: &Population,
    flags: &[bool],
    relies: bool,
) -> (r: Option<Solution>)
    requires
        flags@.len() == candidates@.len(),
    ensures
        r is Some <==> exists|i: int|
            accepted(header_prefix@, candidates@, *target, flags@, relies, i),
        r matches Some(s) ==> {
            &&& s.valid_for(header_prefix@, *target)
            &&& exists|i: int|
                accepted(header_prefix@, candidates@, *target, flags@, relies, i)
                    && s.mutation_vector@ == candidates@[i]
        },
{
    if relies {
        match find_flagged(flags) {
            Some(i) => {
                let r = verify_candidate(header_prefix, candidates.vectors[i].as_slice(), target);
                proof {
                    assert(candidates@[i as int] == candidates.vectors@[i as int]@);
                    if r is Some {
                        assert(accepted(
                            header_prefix@,
                            candidates@,
                            *target,
                            flags@,
                            relies,
                            i as int,
                        ));
                    } else {
                        assert forall|k: int|
                            !accepted(header_prefix@, candidates@, *target, flags@, relies, k) by {
                            if first_flagged(flags@, k) {
                                lemma_first_flagged_unique(flags@, i as int, k);
                            }
                        }
                    }
                }
                r
            },
            None => {
                assert forall|k: int|
                    !accepted(header_prefix@, candidates@, *target, flags@, relies, k) by {
                    if first_flagged(flags@, k) {
                        assert(flags@[k]);
                    }
                }
                None
            },
        }
    } else {
        match survey(header_prefix, target, candidates) {
            Survey::Found(s) => {
                proof {
                    let i = choose|i: int|
                        first_solving(header_prefix@, candidates@, *target, i)
                            && s.mutation_vector@ == candidates@[i];
                    assert(accepted(header_prefix@, candidates@, *target, flags@, relies, i));
                }
                Some(s)
            },
            Survey::Unsolved(_) => {
                assert forall|k: int|
                    !accepted(header_prefix@, candidates@, *target, flags@, relies, k) by {
                    if first_solving(header_prefix@, candidates@, *target, k) {
                        assert(solves(header_prefix@, candidates@[k], *target));
                    }
                }
                None
            },
        }
    }
}

/// Where an accelerated brute-force search stands.
#[derive(Debug)]
pub enum BruteState {
    /// Nothing has been asked of the device yet.
    Idle,
    /// The device is hashing a batch.
    Hashing {
        /// The number of the batch, from zero.
        batch: usize,
        /// The mutation vectors of the batch, one after another.
        population: Vec<u8>,
        /// Whether the device's findings are relied on to pick the
        /// candidate that the host hashes.
        trusted: bool,
    },
    /// The search is over.
    Done,
}

/// What the device did since the last step.
#[derive(Debug)]
pub enum BruteEvent {
    /// The buffers are acquired. `trust_device` says whether the device's
    /// hashing is to be relied on as long as it is not caught out.
    Ready { trust_device: bool },
    /// The batch was hashed: the digests as the device computed them, 32
    /// bytes for each candidate, and for each candidate whether the device
    /// holds it to meet the target.
    Hashed { hashes: Vec<u8>, flags: Vec<bool> },
    /// The device or its driver failed.
    DeviceFailed,
}

/// What the caller is to do next.
#[derive(Debug)]
pub enum BruteAction {
    /// Hand the device the batch held in the state, have it hashed and
    /// measured, and hand back what it found.
    HashBatch,
    /// Stop: with the solution, or with none.
    Stop(Option<Solution>),
}

/// Whether a step ended the search without a solution.
pub open spec fn brute_gave_up(next: (BruteState, BruteAction)) -> bool {
    next.0 == BruteState::Done && next.1 == BruteAction::Stop(None)
}

impl GpuMiner {
    /// Whether what the device handed back for a batch has the sizes of the
    /// backend.
    pub open spec fn batch_fits(self, population: Seq<u8>, hashes: Seq<u8>, flags: Seq<bool>)
        -> bool {
        &&& self.holds_population(population)
        &&& hashes.len() == self.population_size * 32
        &&& flags.len() == self.population_size
    }

    /// One step of the brute-force search in which the device hashes
    /// batches of random mutation vectors that the host draws.
    ///
    /// The device's digests of the first candidates of the first batch are
    /// held against the host's; if one differs the device is no longer
    /// relied on. While it is relied on, the host hashes the first
    /// candidate that the device flagged and accepts it if it meets the
    /// target. Once it is not, the host hashes every candidate of each
    /// batch. Either way a solution is one whose digest the host computed.
    /// After `batches` batches without one the search stops with none, as
    /// it does on a degraded backend, a failure of the device, buffers of
    /// the wrong size or an event that does not belong to the state.
    pub fn mine_bruteforce_gpu(
        &self,
        header_prefix: &[u8],
        target: &Target,
        batches: usize,
        state: BruteState,
        event: BruteEvent,
        rng: &mut RandomSource,
    ) -> (next: (BruteState, BruteAction))
        ensures
            next.1 is Stop <==> next.0 == BruteState::Done,
            !self.ready() ==> brute_gave_up(next),
            next.1 matches BruteAction::Stop(Some(s)) ==> s.valid_for(header_prefix@, *target)
                && s.mutation_vector@.len() == self.mv_len,
            next.0 matches BruteState::Hashing { batch, population, trusted } ==> batch < batches
                && self.holds_population(population@),
            self.ready() ==> match (state, event) {
                (BruteState::Idle, BruteEvent::Ready { trust_device }) => if batches == 0
                    || self.population_size * self.mv_len > usize::MAX {
                    brute_gave_up(next)
                } else {
                    next.0 matches BruteState::Hashing { batch, population, trusted } && batch == 0
                        && trusted == trust_device
                },
                (
                    BruteState::Hashing { batch, population, trusted },
                    BruteEvent::Hashed { hashes, flags },
                ) => if batch >= batches || !self.batch_fits(population@, hashes@, flags@) {
                    brute_gave_up(next)
                } else {
                    let relies = relied_on(
                        trusted,
                        batch,
                        header_prefix@,
                        self.held(population@),
                        hashes@,
                    );
                    if exists|i: int|
                        accepted(
                            header_prefix@,
                            self.held(population@),
                            *target,
                            flags@,
                            relies,
                            i,
                        ) {
                        &&& next.1 matches BruteAction::Stop(Some(s))
                        &&& exists|i: int|
                            accepted(
                                header_prefix@,
                                self.held(population@),
                                *target,
                                flags@,
                                relies,
                                i,
                            ) && s.mutation_vector@ == self.held(population@)[i]
                    } else if batch + 1 < batches {
                        next.0 matches BruteState::Hashing {
                            batch: following,
                            population: drawn,
                            trusted: still,
                        } && following == batch + 1 && still == relies
                    } else {
                        brute_gave_up(next)
                    }
                },
                _ => brute_gave_up(next),
            },
    {
        if !self.has_kernels {
            return (BruteState::Done, BruteAction::Stop(None));
        }
        match (state, event) {
            (BruteState::Idle, BruteEvent::Ready { trust_device }) => {
                if batches == 0 {
                    return (BruteState::Done, BruteAction::Stop(None));
                }
                match self.population_size.checked_mul(self.mv_len) {
                    None => (BruteState::Done, BruteAction::Stop(None)),
                    Some(total) => {
                        let population = rng.bytes(total);
                        (
                            BruteState::Hashing { batch: 0, population, trusted: trust_device },
                            BruteAction::HashBatch,
                        )
                    },
                }
            },
            (
                BruteState::Hashing { batch, population, trusted },
                BruteEvent::Hashed { hashes, flags },
            ) => {
                if batch >= batches || flags.len() != self.population_size {
                    return (BruteState::Done, BruteAction::Stop(None));
                }
                let hashes_len: usize = hashes.len();
                match self.population_size.checked_mul(32) {
                    None => {
                        return (BruteState::Done, BruteAction::Stop(None));
                    },
                    Some(n) => {
                        if n != hashes_len {
                            return (BruteState::Done, BruteAction::Stop(None));
                        }
                    },
                }
                let candidates = match Population::from_flat(
                    population.as_slice(),
                    self.population_size,
                    self.mv_len,
                ) {
                    Some(c) => c,
                    None => {
                        return (BruteState::Done, BruteAction::Stop(None));
                    },
                };
                let relies = trusted && (batch > 0 || check_sample(
                    header_prefix,
                    &candidates,
                    hashes.as_slice(),
                ));
                assert(candidates@ == self.held(population@));
                assert(relies == relied_on(
                    trusted,
                    batch,
                    header_prefix@,
                    self.held(population@),
                    hashes@,
                ));
                match pick_candidate(header_prefix, target, &candidates, flags.as_slice(), relies) {
                    Some(s) => {
                        proof {
                            let i = choose|i: int|
                                accepted(
                                    header_prefix@,
                                    candidates@,
                                    *target,
                                    flags@,
                                    relies,
                                    i,
                                ) && s.mutation_vector@ == candidates@[i];
                            assert(candidates@[i].len() == candidates.mv_len);
                        }
                        (BruteState::Done, BruteAction::Stop(Some(s)))
                    },
                    None => {
                        if batch + 1 < batches {
                            let total: usize = population.len();
                            let drawn = rng.bytes(total);
                            (
                                BruteState::Hashing {
                                    batch: batch + 1,
                                    population: drawn,
                                    trusted: relies,
                                },
                                BruteAction::HashBatch,
                            )
                        } else {
                            (BruteState::Done, BruteAction::Stop(None))
                        }
                    },
                }
            },
            _ => (BruteState::Done, BruteAction::Stop(None)),
        }
    }
}

/// The first `len` bytes of `n`, least significant first.
pub open spec fn le_bytes(n: nat, len: nat) -> Seq<u8>
    decreases len,
{
    if len == 0 {
        Seq::empty()
    } else {
        seq![(n % 256) as u8] + le_bytes(n / 256, (len - 1) as nat)
    }
}

/// How many bytes of a mutation vector a nonce fills: eight, or all of a
/// shorter one.
pub open spec fn nonce_bytes(mv_len: nat) -> nat {
    if mv_len < 8 {
        mv_len
    } else {
        8
    }
}

/// The mutation vector that stands for a nonce: the nonce, least
/// significant byte first, in as many of the first eight bytes as there
/// are, and random bytes after them.
pub fn nonce_vector(nonce: u64, mv_len: usize, rng: &mut RandomSource) -> (v: Vec<u8>)
    ensures
        v@.len() == mv_len,
        v@.subrange(0, nonce_bytes(mv_len as nat) as int) == le_bytes(
            nonce as nat,
            nonce_bytes(mv_len as nat),
        ),
{
    let filled: usize = if mv_len < 8 {
        mv_len
    } else {
        8
    };
    let mut v: Vec<u8> = Vec::new();
    let mut rest: u64 = nonce;
    let mut i: usize = 0;
    while i < filled
        invariant
            i <= filled,
            filled <= 8,
            v@.len() == i,
            v@ + le_bytes(rest as nat, (filled - i) as nat) == le_bytes(
                nonce as nat,
                filled as nat,
            ),
        decreases filled - i,
    {
        let ghost before = v@;
        v.push((rest % 256) as u8);
        assert(before + le_bytes(rest as nat, (filled - i) as nat) =~= v@ + le_bytes(
            (rest / 256) as nat,
            (filled - i - 1) as nat,
        ));
        rest = rest / 256;
        i += 1;
    }
    assert(v@ + le_bytes(rest as nat, 0) =~= v@);
    let ghost head = v@;
    if mv_len > 8 {
        let tail = rng.bytes(mv_len - 8);
        let mut j: usize = 0;
        while j < tail.len()
            invariant
                j <= tail.len(),
                tail@.len() == mv_len - 8,
                v@.len() == 8 + j,
                v@.subrange(0, 8) == head,
            decreases tail.len() - j,
        {
            v.push(tail[j]);
            assert(v@.subrange(0, 8) =~= head);
            j += 1;
        }
    }
    assert(v@.subrange(0, filled as int) =~= head);
    v
}

/// How a search that walks nonces is launched.
#[derive(Clone, Copy, Debug, PartialEq, Eq, Structural)]
pub enum NonceLaunch {
    /// The backend cannot take it.
    Unavailable,
    /// The entry point that walks nonces is missing: the search is run in
    /// this many batches instead.
    Batches(usize),
    /// One launch in which every thread walks `iterations_per_thread`
    /// nonces.
    Kernel { iterations_per_thread: u32, launch: LaunchPlan },
}

/// The nonces that each thread of a launch walks so that `max_nonces` are
/// covered: their share rounded up, at least one, and no more than fits in
/// 32 bits.
pub open spec fn nonce_iterations(max_nonces: u64) -> nat {
    let threads = THREADS_PER_BLOCK as int * NONCE_BLOCKS as int;
    let share = (max_nonces as int + threads - 1) / threads;
    if share < 1 {
        1
    } else if share > u32::MAX {
        u32::MAX as nat
    } else {
        share as nat
    }
}

/// The batches that stand in for a walk over `max_nonces` nonces: one for
/// each full population, and no more than a machine-sized count.
pub open spec fn nonce_batches(max_nonces: u64, population_size: usize) -> nat {
    let batches = max_nonces as nat / population_size as nat;
    if batches > usize::MAX {
        usize::MAX as nat
    } else {
        batches
    }
}

impl GpuMiner {
    /// How a search over `max_nonces` nonces is launched.
    pub fn nonce_launch(&self, max_nonces: u64) -> (r: NonceLaunch)
        ensures
            r == if !self.ready() {
                NonceLaunch::Unavailable
            } else if self.has_brute_force {
                NonceLaunch::Kernel {
                    iterations_per_thread: nonce_iterations(max_nonces) as u32,
                    launch: LaunchPlan { grid: NONCE_BLOCKS, block: THREADS_PER_BLOCK },
                }
            } else if self.population_size == 0 {
                NonceLaunch::Unavailable
            } else {
                NonceLaunch::Batches(nonce_batches(max_nonces, self.population_size) as usize)
            },
    {
        if !self.has_kernels {
            return NonceLaunch::Unavailable;
        }
        if self.has_brute_force {
            let threads: u64 = 262144;
            assert(THREADS_PER_BLOCK as int * NONCE_BLOCKS as int == 262144);
            let whole: u64 = max_nonces / threads;
            let share: u64 = if max_nonces % threads == 0 {
                whole
            } else {
                whole + 1
            };
            assert(share == (max_nonces as int + 262144 - 1) / 262144);
            let iterations_per_thread: u32 = if share < 1 {
                1
            } else if share > 0xffff_ffff {
                0xffff_ffff
            } else {
                share as u32
            };
            return NonceLaunch::Kernel {
                iterations_per_thread,
                launch: LaunchPlan { grid: NONCE_BLOCKS, block: THREADS_PER_BLOCK },
            };
        }
        if self.population_size == 0 {
            return NonceLaunch::Unavailable;
        }
        let batches: u64 = max_nonces / (self.population_size as u64);
        if batches > usize::MAX as u64 {
            NonceLaunch::Batches(usize::MAX)
        } else {
            NonceLaunch::Batches(batches as usize)
        }
    }

    /// Decides on what a launch that walks nonces reported. A reported
    /// nonce is turned into its mutation vector and hashed on the host; it
    /// is a solution only if that digest meets the target. The digest that
    /// the device computed is not looked at.
    pub fn mine_bruteforce_nonce_gpu(
        &self,
        header_prefix: &[u8],
        target: &Target,
        reported: Option<u64>,
        rng: &mut RandomSource,
    ) -> (r: Option<Solution>)
        ensures
            !self.ready() || !self.has_brute_force || reported is None ==> r is None,
            r matches Some(s) ==> {
                &&& s.valid_for(header_prefix@, *target)
                &&& s.mutation_vector@.len() == self.mv_len
                &&& s.mutation_vector@.subrange(0, nonce_bytes(self.mv_len as nat) as int)
                    == le_bytes(reported->Some_0 as nat, nonce_bytes(self.mv_len as nat))
            },
            self.ready() && self.has_brute_force && reported is Some && self.mv_len <= 8 ==> (r
                is Some <==> solves(
                header_prefix@,
                le_bytes(reported->Some_0 as nat, self.mv_len as nat),
                *target,
            )),
            self.ready() && self.has_brute_force && reported is Some && r is None ==> some_fails(
                header_prefix@,
                self.mv_len,
                *target,
            ),
            self.ready() && self.has_brute_force && reported is Some && target@ >= pow256(32) - 1
                ==> r is Some,
    {
        if !self.has_kernels || !self.has_brute_force {
            return None;
        }
        match reported {
            None => None,
            Some(nonce) => {
                let mutation_vector = nonce_vector(nonce, self.mv_len, rng);
                proof {
                    if self.mv_len <= 8 {
                        assert(mutation_vector@.subrange(0, self.mv_len as int)
                            =~= mutation_vector@);
                    }
                }
                let r = verify_candidate(header_prefix, mutation_vector.as_slice(), target);
                assert(r is None ==> !solves(header_prefix@, mutation_vector@, *target));
                r
            },
        }
    }
}

} // verus!
