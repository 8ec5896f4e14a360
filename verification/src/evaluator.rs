//! Hashing a candidate and measuring its digest against the target.

use crate::bigendian::{
    be_bit_length, be_le, be_sub, be_value, bit_length, lemma_be_value_bound,
    lemma_be_value_zero, lemma_bit_length_bound, pow256,
};
use crate::target::Target;
use vstd::prelude::*;

verus! {

/// The BLAKE3 hash of `input`, in its default mode with 32 bytes of output.
pub uninterp spec fn blake3_digest(input: Seq<u8>) -> Seq<u8>;

/// `blake3::hash`, the default BLAKE3 hash function, whose output is taken
/// as its 32 bytes. The result is the hash of the whole of `input` and of
/// nothing else.
#[verifier::external_body]
pub(crate) fn blake3_hash(input: &[u8]) -> (digest: [u8; 32])
    ensures
        digest@ == blake3_digest(input@),
{
    *blake3::hash(input).as_bytes()
}

/// The bytes that are hashed for a candidate: the header prefix with the
/// mutation vector appended.
pub open spec fn candidate_bytes(header_prefix: Seq<u8>, mutation_vector: Seq<u8>) -> Seq<u8> {
    header_prefix + mutation_vector
}

/// The digest of a candidate: one hash over the header prefix followed by
/// the mutation vector.
pub fn hash(header_prefix: &[u8], mutation_vector: &[u8]) -> (digest: [u8; 32])
    ensures
        digest@ == blake3_digest(candidate_bytes(header_prefix@, mutation_vector@)),
{
    let mut candidate: Vec<u8> = Vec::new();
    let mut i: usize = 0;
    while i < header_prefix.len()
        invariant
            i <= header_prefix.len(),
            candidate@ == header_prefix@.subrange(0, i as int),
        decreases header_prefix.len() - i,
    {
        candidate.push(header_prefix[i]);
        assert(candidate@ =~= header_prefix@.subrange(0, i + 1));
        i += 1;
    }
    assert(candidate@ =~= header_prefix@);
    let mut j: usize = 0;
    while j < mutation_vector.len()
        invariant
            j <= mutation_vector.len(),
            candidate@ == header_prefix@ + mutation_vector@.subrange(0, j as int),
        decreases mutation_vector.len() - j,
    {
        candidate.push(mutation_vector[j]);
        assert(candidate@ =~= header_prefix@ + mutation_vector@.subrange(0, j + 1));
        j += 1;
    }
    assert(candidate@ =~= header_prefix@ + mutation_vector@);
    blake3_hash(candidate.as_slice())
}

/// Whether a digest meets a target: read as a big-endian unsigned 256-bit
/// integer, it does not exceed the target.
pub fn is_solution(digest: &[u8; 32], target: &Target) -> (ok: bool)
    ensures
        ok == (be_value(digest@) <= target@),
{
    be_le(digest, &target.bytes)
}

/// Whether the candidate made of `header_prefix` and `mutation_vector` meets
/// the target.
pub open spec fn solves(header_prefix: Seq<u8>, mutation_vector: Seq<u8>, target: Target) -> bool {
    be_value(blake3_digest(candidate_bytes(header_prefix, mutation_vector))) <= target@
}

/// Whether some mutation vector of `mv_len` bytes fails the target.
pub open spec fn some_fails(header_prefix: Seq<u8>, mv_len: usize, target: Target) -> bool {
    exists|mutation_vector: Seq<u8>|
        mutation_vector.len() == mv_len && !#[trigger] solves(
            header_prefix,
            mutation_vector,
            target,
        )
}

/// By how many binary digits a digest overshoots a target: none where it
/// meets the target, otherwise the binary length of the excess.
pub open spec fn overshoot_bits(digest: nat, target: nat) -> nat {
    if digest <= target {
        0
    } else {
        bit_length((digest - target) as nat)
    }
}

/// The fitness of a candidate. Its score is the real number 1 where the
/// digest meets the target and `1 / (1 + ln b)` otherwise, `b` being the
/// number of binary digits of the excess of the digest over the target. The
/// score is kept as `b`, with 0 for a digest that meets the target. Fewer
/// digits mean a larger score, but one digit and none both give the score 1.
///
/// The digest of a sound hash function tells nothing of how near another
/// input would come, so this score guides a search no better than chance.
#[derive(Clone, Copy, Debug, PartialEq, Eq, Structural)]
pub struct Fitness {
    pub overshoot_bits: u32,
}

impl Fitness {
    /// The argument of the logarithm in the score: the digits of the excess,
    /// and one where there is no excess.
    pub open spec fn rank(self) -> nat {
        if self.overshoot_bits == 0 {
            1
        } else {
            self.overshoot_bits as nat
        }
    }

    /// Whether the score is 1.
    pub open spec fn perfect(self) -> bool {
        self.rank() == 1
    }

    /// Whether the score is strictly larger than that of `other`.
    pub open spec fn better_than(self, other: Fitness) -> bool {
        self.rank() < other.rank()
    }

    /// Whether the score is 1.
    pub fn is_perfect(&self) -> (r: bool)
        ensures
            r == self.perfect(),
    {
        self.overshoot_bits <= 1
    }

    /// Whether the score is strictly larger than that of `other`.
    pub fn exceeds(&self, other: &Fitness) -> (r: bool)
        ensures
            r == self.better_than(*other),
    {
        let mine: u32 = if self.overshoot_bits == 0 {
            1
        } else {
            self.overshoot_bits
        };
        let theirs: u32 = if other.overshoot_bits == 0 {
            1
        } else {
            other.overshoot_bits
        };
        mine < theirs
    }
}

/// The fitness of the candidate made of `header_prefix` and
/// `mutation_vector`.
pub open spec fn score(header_prefix: Seq<u8>, mutation_vector: Seq<u8>, target: Target)
    -> Fitness {
    Fitness {
        overshoot_bits: overshoot_bits(
            be_value(blake3_digest(candidate_bytes(header_prefix, mutation_vector))),
            target@,
        ) as u32,
    }
}

/// The fitness of a digest against a target.
pub fn fitness(digest: &[u8; 32], target: &Target) -> (f: Fitness)
    ensures
        f.overshoot_bits == overshoot_bits(be_value(digest@), target@),
        f.overshoot_bits <= 256,
{
    if is_solution(digest, target) {
        Fitness { overshoot_bits: 0 }
    } else {
        let excess = be_sub(digest, &target.bytes);
        Fitness { overshoot_bits: be_bit_length(&excess) }
    }
}

/// A candidate's digest with its fitness.
#[derive(Clone, Copy, Debug)]
pub struct Evaluation {
    pub digest: [u8; 32],
    pub fitness: Fitness,
}

impl Evaluation {
    /// Whether this is what evaluating `mutation_vector` gives.
    pub open spec fn of(self, header_prefix: Seq<u8>, mutation_vector: Seq<u8>, target: Target)
        -> bool {
        &&& self.digest@ == blake3_digest(candidate_bytes(header_prefix, mutation_vector))
        &&& self.fitness == score(header_prefix, mutation_vector, target)
    }

    /// Whether the digest met the target.
    pub open spec fn solved(self) -> bool {
        self.fitness.overshoot_bits == 0
    }

    /// Whether the digest met the target.
    pub fn is_solution(&self) -> (r: bool)
        ensures
            r == self.solved(),
    {
        self.fitness.overshoot_bits == 0
    }
}

/// An evaluation shows a solution exactly where the candidate meets the
/// target.
pub proof fn lemma_solved_iff_solves(
    e: Evaluation,
    header_prefix: Seq<u8>,
    mutation_vector: Seq<u8>,
    target: Target,
)
    requires
        e.of(header_prefix, mutation_vector, target),
    ensures
        e.solved() <==> solves(header_prefix, mutation_vector, target),
        e.solved() <==> be_value(e.digest@) <= target@,
{
    let d = be_value(e.digest@);
    lemma_be_value_bound(e.digest@);
    lemma_perfect_score(d, target@);
    if d > target@ {
        lemma_bit_length_bound((d - target@) as nat, 32);
    }
}

/// Hashes a candidate and measures its digest against the target.
pub fn evaluate(header_prefix: &[u8], mutation_vector: &[u8], target: &Target) -> (e: Evaluation)
    ensures
        e.of(header_prefix@, mutation_vector@, *target),
{
    let digest = hash(header_prefix, mutation_vector);
    let fitness = fitness(&digest, target);
    Evaluation { digest, fitness }
}

/// A candidate that was found to meet the target: the mutation vector and
/// the digest of the header prefix followed by it.
#[derive(Debug)]
pub struct Solution {
    pub mutation_vector: Vec<u8>,
    pub digest: [u8; 32],
}

impl Solution {
    /// Whether the digest is that of the header prefix followed by the
    /// mutation vector, and meets the target.
    pub open spec fn valid_for(self, header_prefix: Seq<u8>, target: Target) -> bool {
        &&& self.digest@ == blake3_digest(candidate_bytes(header_prefix, self.mutation_vector@))
        &&& be_value(self.digest@) <= target@
    }
}

/// The mutation vector of a solution, where there is one.
pub open spec fn vector_of(solution: Option<Solution>) -> Option<Seq<u8>> {
    match solution {
        Some(s) => Some(s.mutation_vector@),
        None => None,
    }
}

/// Hashes a candidate on the host and accepts it only if the digest meets
/// the target. Whatever proposed the candidate, this decides.
pub fn verify_candidate(header_prefix: &[u8], mutation_vector: &[u8], target: &Target) -> (r:
    Option<Solution>)
    ensures
        r is Some <==> solves(header_prefix@, mutation_vector@, *target),
        r is Some ==> r->Some_0.mutation_vector@ == mutation_vector@ && r->Some_0.valid_for(
            header_prefix@,
            *target,
        ),
        target@ >= pow256(32) - 1 ==> r is Some,
{
    let digest = hash(header_prefix, mutation_vector);
    proof {
        lemma_be_value_bound(digest@);
    }
    if is_solution(&digest, target) {
        let mutation_vector = copy_bytes(mutation_vector);
        Some(Solution { mutation_vector, digest })
    } else {
        None
    }
}

/// A copy of `bytes`.
pub fn copy_bytes(bytes: &[u8]) -> (r: Vec<u8>)
    ensures
        r@ == bytes@,
{
    let mut r: Vec<u8> = Vec::new();
    let mut i: usize = 0;
    while i < bytes.len()
        invariant
            i <= bytes.len(),
            r@ == bytes@.subrange(0, i as int),
        decreases bytes.len() - i,
    {
        r.push(bytes[i]);
        assert(r@ =~= bytes@.subrange(0, i + 1));
        i += 1;
    }
    assert(r@ =~= bytes@);
    r
}

/// The score is 1 for every digest that meets the target, and for one
/// digest more: the one that exceeds the target by exactly one, whose excess
/// has a single binary digit.
pub proof fn lemma_perfect_score(digest: nat, target: nat)
    ensures
        overshoot_bits(digest, target) == 0 <==> digest <= target,
        overshoot_bits(digest, target) <= 1 <==> digest <= target + 1,
{
    reveal_with_fuel(bit_length, 3);
}

/// Apart from the digest that exceeds the target by exactly one, the score
/// is 1 exactly for the digests that meet the target.
pub proof fn lemma_score_one_iff_solution(f: Fitness, digest: nat, target: nat)
    requires
        f.overshoot_bits == overshoot_bits(digest, target),
        digest != target + 1,
    ensures
        f.perfect() <==> digest <= target,
{
    lemma_perfect_score(digest, target);
}

/// A digest that exceeds the target by more than one has an excess of at
/// least two binary digits, so that its score `1 / (1 + ln b)` lies strictly
/// between 0 and 1.
pub proof fn lemma_score_below_one(f: Fitness, digest: nat, target: nat)
    requires
        f.overshoot_bits == overshoot_bits(digest, target),
        digest > target + 1,
    ensures
        !f.perfect(),
        f.rank() >= 2,
{
    lemma_perfect_score(digest, target);
}

/// Every digest meets the largest target.
pub proof fn lemma_max_target_admits_all(digest: Seq<u8>)
    requires
        digest.len() == 32,
    ensures
        be_value(digest) <= pow256(32) - 1,
{
    lemma_be_value_bound(digest);
}

/// Only the digest of 32 zero bytes meets the target zero.
pub proof fn lemma_zero_target_admits_zero_only(digest: Seq<u8>)
    ensures
        be_value(digest) <= 0 <==> (forall|i: int| 0 <= i < digest.len() ==> digest[i] == 0),
{
    lemma_be_value_zero(digest);
}

} // verus!
