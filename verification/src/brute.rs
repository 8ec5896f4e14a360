//! The brute-force search: independent lanes that draw random mutation
//! vectors and test them, with nothing carried from one draw to the next.

use crate::bigendian::pow256;
use crate::evaluator::{solves, some_fails, vector_of, verify_candidate, Solution};
use crate::random::RandomSource;
use crate::target::Target;
use std::sync::atomic::{AtomicBool, AtomicU64, Ordering};
use vstd::prelude::*;

verus! {

/// One attempt: draws a random mutation vector of `mv_len` bytes and tests
/// it.
pub fn bruteforce_attempt(
    header_prefix: &[u8],
    target: &Target,
    mv_len: usize,
    rng: &mut RandomSource,
) -> (r: Option<Solution>)
    ensures
        r matches Some(s) ==> s.valid_for(header_prefix@, *target) && s.mutation_vector@.len()
            == mv_len,
        r is None ==> some_fails(header_prefix@, mv_len, *target),
        target@ >= pow256(32) - 1 ==> r is Some,
{
    let mutation_vector = rng.bytes(mv_len);
    let r = verify_candidate(header_prefix, mutation_vector.as_slice(), target);
    assert(r is None ==> !solves(header_prefix@, mutation_vector@, *target));
    r
}

/// How a brute-force search on one lane ended.
#[derive(Debug)]
pub struct BruteForceReport {
    /// The solution, if one was found.
    pub solution: Option<Solution>,
    /// The number of attempts made.
    pub attempts: u64,
}

/// Whether `tried` are the mutation vectors of a brute-force search that
/// was allowed `max_attempts` attempts and ended with `found`: each has
/// `mv_len` bytes, none but the last meets the target, and the search went
/// on to its last attempt unless it found. What it found is the last that
/// it tried, and under the largest target the first.
pub open spec fn attempted(
    header_prefix: Seq<u8>,
    target: Target,
    mv_len: usize,
    max_attempts: u64,
    tried: Seq<Seq<u8>>,
    found: Option<Seq<u8>>,
) -> bool {
    &&& tried.len() <= max_attempts
    &&& forall|k: int| 0 <= k < tried.len() ==> (#[trigger] tried[k]).len() == mv_len
    &&& forall|k: int|
        0 <= k < tried.len() && !(found is Some && k == tried.len() - 1) ==> !solves(
            header_prefix,
            #[trigger] tried[k],
            target,
        )
    &&& found is None ==> tried.len() == max_attempts
    &&& found matches Some(mutation_vector) ==> {
        &&& tried.len() >= 1
        &&& mutation_vector == tried[tried.len() - 1]
        &&& solves(header_prefix, mutation_vector, target)
        &&& target@ >= pow256(32) - 1 ==> tried.len() == 1
    }
}

/// The brute-force search on a single lane: attempts until one succeeds or
/// `max_attempts` have been made.
pub fn run_bruteforce(
    header_prefix: &[u8],
    target: &Target,
    mv_len: usize,
    max_attempts: u64,
    rng: &mut RandomSource,
) -> (report: BruteForceReport)
    ensures
        report.solution matches Some(s) ==> {
            &&& s.valid_for(header_prefix@, *target)
            &&& s.mutation_vector@.len() == mv_len
            &&& 1 <= report.attempts <= max_attempts
        },
        report.solution is None ==> report.attempts == max_attempts,
        report.solution is None && max_attempts > 0 ==> some_fails(
            header_prefix@,
            mv_len,
            *target,
        ),
        target@ >= pow256(32) - 1 && max_attempts > 0 ==> report.solution is Some
            && report.attempts == 1,
        exists|tried: Seq<Seq<u8>>|
            report.attempts == tried.len() && #[trigger] attempted(
                header_prefix@,
                *target,
                mv_len,
                max_attempts,
                tried,
                vector_of(report.solution),
            ),
{
    let mut attempts: u64 = 0;
    let ghost mut tried: Seq<Seq<u8>> = Seq::empty();
    while attempts < max_attempts
        invariant
            attempts <= max_attempts,
            target@ >= pow256(32) - 1 ==> attempts == 0,
            attempts > 0 ==> some_fails(header_prefix@, mv_len, *target),
            tried.len() == attempts,
            forall|k: int| 0 <= k < tried.len() ==> (#[trigger] tried[k]).len() == mv_len,
            forall|k: int|
                0 <= k < tried.len() ==> !solves(header_prefix@, #[trigger] tried[k], *target),
        decreases max_attempts - attempts,
    {
        attempts = attempts + 1;
        let mutation_vector = rng.bytes(mv_len);
        match verify_candidate(header_prefix, mutation_vector.as_slice(), target) {
            Some(s) => {
                proof {
                    let all = tried.push(s.mutation_vector@);
                    assert forall|k: int|
                        0 <= k < all.len() && k != all.len() - 1 implies !solves(
                        header_prefix@,
                        #[trigger] all[k],
                        *target,
                    ) by {
                        assert(all[k] == tried[k]);
                    }
                    assert forall|k: int| 0 <= k < all.len() implies (#[trigger] all[k]).len()
                        == mv_len by {
                        if k < tried.len() {
                            assert(all[k] == tried[k]);
                        }
                    }
                    assert(attempted(
                        header_prefix@,
                        *target,
                        mv_len,
                        max_attempts,
                        all,
                        Some(s.mutation_vector@),
                    ));
                }
                return BruteForceReport { solution: Some(s), attempts };
            },
            None => {
                proof {
                    assert(!solves(header_prefix@, mutation_vector@, *target));
                    let longer = tried.push(mutation_vector@);
                    assert forall|k: int| 0 <= k < longer.len() implies (
                    #[trigger] longer[k]).len() == mv_len && !solves(
                        header_prefix@,
                        longer[k],
                        *target,
                    ) by {
                        if k < tried.len() {
                            assert(longer[k] == tried[k]);
                        }
                    }
                    tried = longer;
                }
            },
        }
    }
    assert(attempted(header_prefix@, *target, mv_len, max_attempts, tried, None));
    BruteForceReport { solution: None, attempts }
}

/// How a lane left the search.
#[derive(Debug)]
pub enum LaneOutcome {
    /// This lane found a solution and was the one to raise the shared flag.
    Found(Solution),
    /// The shared flag had been raised by another lane: either this lane saw
    /// it before an attempt, or it found a solution of its own too late to
    /// be the one that raises it.
    Cancelled,
    /// The lane made all the attempts it was allowed.
    Exhausted,
}

/// A lane's outcome and the number of attempts it made.
#[derive(Debug)]
pub struct LaneReport {
    pub outcome: LaneOutcome,
    pub attempts: u64,
}

/// What a lane does on a look at the shared flag before an attempt: with
/// the flag raised it leaves as cancelled with the attempts it has made,
/// and otherwise it goes on.
pub fn glance(raised: bool, made: u64) -> (leave: Option<LaneReport>)
    ensures
        raised ==> leave == Some(LaneReport { outcome: LaneOutcome::Cancelled, attempts: made }),
        !raised ==> leave is None,
{
    if raised {
        Some(LaneReport { outcome: LaneOutcome::Cancelled, attempts: made })
    } else {
        None
    }
}

/// How a lane that found a solution leaves. `raised` is what its swap found
/// in the shared flag: the one lane that finds the flag lowered owns the
/// result, and a lane that finds it raised came too late and is cancelled.
pub fn settle(solution: Solution, raised: bool) -> (outcome: LaneOutcome)
    ensures
        raised ==> outcome is Cancelled,
        !raised ==> outcome == LaneOutcome::Found(solution),
{
    if raised {
        LaneOutcome::Cancelled
    } else {
        LaneOutcome::Found(solution)
    }
}

/// One lane of a parallel brute-force search. Before each attempt the lane
/// looks at the shared flag `found` and leaves if it is raised. After each
/// attempt it adds one to the shared counter `attempts`, which serves
/// progress reports only. A lane whose attempt succeeds raises the flag by
/// a swap; the one lane whose swap finds it lowered owns the result. A lane
/// that may make no attempt is exhausted at once, without a look at the
/// flag.
pub fn bruteforce_lane(
    header_prefix: &[u8],
    target: &Target,
    mv_len: usize,
    max_attempts: u64,
    rng: &mut RandomSource,
    found: &AtomicBool,
    attempts: &AtomicU64,
) -> (report: LaneReport)
    ensures
        report.attempts <= max_attempts,
        max_attempts == 0 ==> report.outcome is Exhausted,
        report.outcome matches LaneOutcome::Found(s) ==> {
            &&& s.valid_for(header_prefix@, *target)
            &&& s.mutation_vector@.len() == mv_len
            &&& report.attempts >= 1
        },
        report.outcome is Exhausted ==> report.attempts == max_attempts,
        report.outcome is Exhausted && max_attempts > 0 ==> some_fails(
            header_prefix@,
            mv_len,
            *target,
        ),
        target@ >= pow256(32) - 1 ==> report.attempts <= 1,
        target@ >= pow256(32) - 1 && max_attempts > 0 ==> !(report.outcome is Exhausted),
{
    let mut made: u64 = 0;
    while made < max_attempts
        invariant
            made <= max_attempts,
            target@ >= pow256(32) - 1 ==> made == 0,
            made > 0 ==> some_fails(header_prefix@, mv_len, *target),
        decreases max_attempts - made,
    {
        match glance(found.load(Ordering::Relaxed), made) {
            Some(report) => {
                return report;
            },
            None => {},
        }
        let attempt = bruteforce_attempt(header_prefix, target, mv_len, rng);
        made = made + 1;
        attempts.fetch_add(1, Ordering::Relaxed);
        match attempt {
            Some(s) => {
                let outcome = settle(s, found.swap(true, Ordering::SeqCst));
                return LaneReport { outcome, attempts: made };
            },
            None => {},
        }
    }
    LaneReport { outcome: LaneOutcome::Exhausted, attempts: made }
}

} // verus!
