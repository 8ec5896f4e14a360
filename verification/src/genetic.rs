//! The genetic search: a population of mutation vectors that is evaluated
//! and, while none of them solves, bred into the next one by tournament
//! selection, one-point crossover and point mutation.

use crate::bigendian::{be_value, lemma_be_value_bound, pow256};
use crate::evaluator::{
    blake3_digest, candidate_bytes, copy_bytes, evaluate, lemma_solved_iff_solves, score,
    solves, some_fails, vector_of, verify_candidate, Evaluation, Fitness, Solution,
};
use crate::random::RandomSource;
use crate::target::Target;
use vstd::prelude::*;

verus! {

/// A child is mutated with a chance of `MUTATION_NUMERATOR` in
/// `MUTATION_DENOMINATOR`.
pub const MUTATION_NUMERATOR: u32 = 1;

pub const MUTATION_DENOMINATOR: u32 = 50;

/// The `i`-th mutation vector of `mv_len` bytes in a buffer that holds
/// mutation vectors one after another.
pub open spec fn chunk(flat: Seq<u8>, mv_len: nat, i: int) -> Seq<u8> {
    flat.subrange(i * mv_len, (i + 1) * mv_len)
}

/// The first `count` mutation vectors of `mv_len` bytes in a buffer that
/// holds them one after another.
pub open spec fn chunks(flat: Seq<u8>, mv_len: nat, count: nat) -> Seq<Seq<u8>> {
    Seq::new(count, |i: int| chunk(flat, mv_len, i))
}

/// Each mutation vector held in a buffer of `count` of them has `mv_len`
/// bytes.
pub proof fn lemma_chunk_len(flat: Seq<u8>, mv_len: nat, count: nat, i: int)
    requires
        flat.len() == count * mv_len,
        0 <= i < count,
    ensures
        chunk(flat, mv_len, i).len() == mv_len,
{
    assert((i + 1) * mv_len <= count * mv_len) by (nonlinear_arith)
        requires
            i + 1 <= count,
    ;
    assert((i + 1) * mv_len == i * mv_len + mv_len) by (nonlinear_arith);
    assert(0 <= i * mv_len) by (nonlinear_arith)
        requires
            0 <= i,
    ;
}

/// An ordered collection of mutation vectors, all of one length. Its view
/// is the sequence of the mutation vectors.
#[derive(Debug)]
pub struct Population {
    pub vectors: Vec<Vec<u8>>,
    pub mv_len: usize,
}

impl View for Population {
    type V = Seq<Seq<u8>>;

    open spec fn view(&self) -> Seq<Seq<u8>> {
        Seq::new(self.vectors@.len(), |i: int| self.vectors@[i]@)
    }
}

impl Population {
    /// Whether every mutation vector has `mv_len` bytes.
    pub open spec fn wf(self) -> bool {
        forall|i: int| 0 <= i < self@.len() ==> (#[trigger] self@[i]).len() == self.mv_len
    }

    /// The number of mutation vectors.
    pub fn len(&self) -> (n: usize)
        ensures
            n == self@.len(),
    {
        self.vectors.len()
    }

    /// The population made of `vectors`, if each of them has `mv_len` bytes.
    pub fn from_vectors(vectors: Vec<Vec<u8>>, mv_len: usize) -> (r: Option<Population>)
        ensures
            r is Some <==> (forall|i: int|
                0 <= i < vectors@.len() ==> (#[trigger] vectors@[i])@.len() == mv_len),
            r matches Some(p) ==> p.vectors == vectors && p.mv_len == mv_len && p.wf(),
    {
        let mut i: usize = 0;
        while i < vectors.len()
            invariant
                i <= vectors.len(),
                forall|j: int| 0 <= j < i ==> (#[trigger] vectors@[j])@.len() == mv_len,
            decreases vectors.len() - i,
        {
            if vectors[i].len() != mv_len {
                return None;
            }
            i += 1;
        }
        let p = Population { vectors, mv_len };
        assert forall|i: int| 0 <= i < p@.len() implies (#[trigger] p@[i]).len() == mv_len by {
            assert(p.vectors@[i]@.len() == mv_len);
        }
        Some(p)
    }

    /// The population held in a buffer of `population_size` mutation
    /// vectors of `mv_len` bytes, one after another. A buffer of any other
    /// length holds none.
    pub fn from_flat(flat: &[u8], population_size: usize, mv_len: usize) -> (r: Option<Population>)
        ensures
            r is Some <==> flat@.len() == population_size * mv_len,
            r matches Some(p) ==> p.wf() && p.mv_len == mv_len && p@ == chunks(
                flat@,
                mv_len as nat,
                population_size as nat,
            ),
    {
        let given: usize = flat.len();
        let total: usize = match population_size.checked_mul(mv_len) {
            Some(total) => total,
            None => {
                return None;
            },
        };
        if total != given {
            return None;
        }
        let mut vectors: Vec<Vec<u8>> = Vec::new();
        let mut i: usize = 0;
        let mut offset: usize = 0;
        while i < population_size
            invariant
                i <= population_size,
                offset == i * mv_len,
                flat@.len() == population_size * mv_len,
                flat@.len() == given,
                vectors@.len() == i,
                forall|k: int|
                    0 <= k < i ==> (#[trigger] vectors@[k])@ == chunk(flat@, mv_len as nat, k),
            decreases population_size - i,
        {
            assert((i + 1) * mv_len <= population_size * mv_len) by (nonlinear_arith)
                requires
                    i + 1 <= population_size,
            ;
            assert((i + 1) * mv_len == i * mv_len + mv_len) by (nonlinear_arith);
            let mut mv: Vec<u8> = Vec::new();
            let mut j: usize = 0;
            while j < mv_len
                invariant
                    j <= mv_len,
                    offset + mv_len <= flat@.len(),
                    flat@.len() == given,
                    mv@ == flat@.subrange(offset as int, offset + j),
                decreases mv_len - j,
            {
                mv.push(flat[offset + j]);
                assert(mv@ =~= flat@.subrange(offset as int, offset + j + 1));
                j += 1;
            }
            vectors.push(mv);
            offset = offset + mv_len;
            i += 1;
        }
        let p = Population { vectors, mv_len };
        proof {
            assert(p@ =~= chunks(flat@, mv_len as nat, population_size as nat));
            assert forall|k: int| 0 <= k < p@.len() implies (#[trigger] p@[k]).len() == mv_len by {
                lemma_chunk_len(flat@, mv_len as nat, population_size as nat, k);
            }
        }
        Some(p)
    }

    /// A population of `population_size` random mutation vectors of `mv_len`
    /// bytes.
    pub fn random(population_size: usize, mv_len: usize, rng: &mut RandomSource) -> (p: Population)
        ensures
            p.wf(),
            p@.len() == population_size,
            p.mv_len == mv_len,
    {
        let mut vectors: Vec<Vec<u8>> = Vec::new();
        let mut i: usize = 0;
        while i < population_size
            invariant
                i <= population_size,
                vectors@.len() == i,
                forall|j: int| 0 <= j < i ==> (#[trigger] vectors@[j])@.len() == mv_len,
            decreases population_size - i,
        {
            let mv = rng.bytes(mv_len);
            vectors.push(mv);
            i += 1;
        }
        let p = Population { vectors, mv_len };
        assert forall|i: int| 0 <= i < p@.len() implies (#[trigger] p@[i]).len() == mv_len by {
            assert(p.vectors@[i]@.len() == mv_len);
        }
        p
    }
}

/// The random draws that make one child.
#[derive(Clone, Copy, Debug)]
pub struct ChildDraw {
    /// The two individuals that contend to be the first parent.
    pub first: (usize, usize),
    /// The two individuals that contend to be the second parent.
    pub second: (usize, usize),
    /// The child has the first parent's bytes before this position and the
    /// second parent's from it on.
    pub cut: usize,
    /// The position that is overwritten, and the byte written there.
    pub mutation: Option<(usize, u8)>,
}

impl ChildDraw {
    /// Whether the draws fit a population of `population_size` mutation
    /// vectors of `mv_len` bytes.
    pub open spec fn valid(self, population_size: nat, mv_len: nat) -> bool {
        &&& self.first.0 < population_size
        &&& self.first.1 < population_size
        &&& self.second.0 < population_size
        &&& self.second.1 < population_size
        &&& self.cut <= mv_len
        &&& mv_len > 0 ==> self.cut < mv_len
        &&& self.mutation matches Some(m) ==> m.0 < mv_len
    }
}

/// Whether each of `draws` fits a population of `population_size` mutation
/// vectors of `mv_len` bytes.
pub open spec fn all_valid(draws: Seq<ChildDraw>, population_size: nat, mv_len: nat) -> bool {
    forall|k: int| 0 <= k < draws.len() ==> (#[trigger] draws[k]).valid(population_size, mv_len)
}

/// The winner of a tournament between two individuals: the first where its
/// score is strictly the larger, else the second.
pub open spec fn tournament_winner(fitness: Seq<Fitness>, first: int, second: int) -> int {
    if fitness[first].better_than(fitness[second]) {
        first
    } else {
        second
    }
}

/// One-point crossover: the first parent's bytes before `cut`, the second
/// parent's from `cut` on.
pub open spec fn crossed(first: Seq<u8>, second: Seq<u8>, cut: int) -> Seq<u8> {
    first.subrange(0, cut) + second.subrange(cut, second.len() as int)
}

/// Point mutation: one byte overwritten, or none.
pub open spec fn mutated(child: Seq<u8>, mutation: Option<(usize, u8)>) -> Seq<u8> {
    match mutation {
        Some(m) => child.update(m.0 as int, m.1),
        None => child,
    }
}

/// The child that `draw` makes of a population with the given fitness.
pub open spec fn child_of(population: Seq<Seq<u8>>, fitness: Seq<Fitness>, draw: ChildDraw) -> Seq<
    u8,
> {
    let first = population[tournament_winner(fitness, draw.first.0 as int, draw.first.1 as int)];
    let second = population[tournament_winner(
        fitness,
        draw.second.0 as int,
        draw.second.1 as int,
    )];
    mutated(crossed(first, second, draw.cut as int), draw.mutation)
}

/// Whether `children` are what `draws` make of a population, child by
/// child.
pub open spec fn bred(
    population: Seq<Seq<u8>>,
    fitness: Seq<Fitness>,
    draws: Seq<ChildDraw>,
    children: Seq<Seq<u8>>,
) -> bool {
    &&& children.len() == draws.len()
    &&& forall|k: int|
        0 <= k < draws.len() ==> #[trigger] children[k] == child_of(population, fitness, draws[k])
}

/// The children that `draws` make of a population, child by child.
pub open spec fn children_of(
    population: Seq<Seq<u8>>,
    fitness: Seq<Fitness>,
    draws: Seq<ChildDraw>,
) -> Seq<Seq<u8>> {
    Seq::new(draws.len(), |k: int| child_of(population, fitness, draws[k]))
}

/// Whether `evaluations` are those of the population, individual by
/// individual.
pub open spec fn evaluated(
    header_prefix: Seq<u8>,
    population: Seq<Seq<u8>>,
    target: Target,
    evaluations: Seq<Evaluation>,
) -> bool {
    &&& evaluations.len() == population.len()
    &&& forall|i: int|
        0 <= i < evaluations.len() ==> (#[trigger] evaluations[i]).of(
            header_prefix,
            population[i],
            target,
        )
}

/// The fitness of each individual of a population.
pub open spec fn population_fitness(
    header_prefix: Seq<u8>,
    population: Seq<Seq<u8>>,
    target: Target,
) -> Seq<Fitness> {
    Seq::new(population.len(), |i: int| score(header_prefix, population[i], target))
}

/// Whether some individual of a population meets the target.
pub open spec fn some_solves(header_prefix: Seq<u8>, population: Seq<Seq<u8>>, target: Target)
    -> bool {
    exists|i: int|
        0 <= i < population.len() && solves(header_prefix, #[trigger] population[i], target)
}

/// Whether `i` is the first individual, in population order, that meets the
/// target.
pub open spec fn first_solving(
    header_prefix: Seq<u8>,
    population: Seq<Seq<u8>>,
    target: Target,
    i: int,
) -> bool {
    &&& 0 <= i < population.len()
    &&& solves(header_prefix, population[i], target)
    &&& forall|j: int| 0 <= j < i ==> !solves(header_prefix, #[trigger] population[j], target)
}

/// The population that a search from `start` holds after it bred `rounds`
/// times, the draws of its `k`-th breeding being `tape[k]`.
pub open spec fn population_after(
    header_prefix: Seq<u8>,
    target: Target,
    start: Seq<Seq<u8>>,
    tape: Seq<Seq<ChildDraw>>,
    rounds: nat,
) -> Seq<Seq<u8>>
    decreases rounds,
{
    if rounds == 0 {
        start
    } else {
        let before = population_after(header_prefix, target, start, tape, (rounds - 1) as nat);
        children_of(before, population_fitness(header_prefix, before, target), tape[rounds - 1])
    }
}

/// Whether `tape` holds the draws of a search from `start`: each breeding
/// replaced a population in which no individual met the target, by as many
/// children, from draws that fit it.
pub open spec fn bred_along(
    header_prefix: Seq<u8>,
    target: Target,
    start: Seq<Seq<u8>>,
    mv_len: nat,
    tape: Seq<Seq<ChildDraw>>,
) -> bool {
    forall|k: int|
        0 <= k < tape.len() ==> {
            &&& (#[trigger] tape[k]).len() == start.len()
            &&& all_valid(tape[k], start.len(), mv_len)
            &&& !some_solves(
                header_prefix,
                population_after(header_prefix, target, start, tape, k as nat),
                target,
            )
        }
}

/// Draws that are added to a tape leave the populations before them as
/// they were.
pub proof fn lemma_population_after_extended(
    header_prefix: Seq<u8>,
    target: Target,
    start: Seq<Seq<u8>>,
    tape: Seq<Seq<ChildDraw>>,
    draws: Seq<ChildDraw>,
    rounds: nat,
)
    requires
        rounds <= tape.len(),
    ensures
        population_after(header_prefix, target, start, tape.push(draws), rounds)
            == population_after(header_prefix, target, start, tape, rounds),
    decreases rounds,
{
    if rounds > 0 {
        lemma_population_after_extended(
            header_prefix,
            target,
            start,
            tape,
            draws,
            (rounds - 1) as nat,
        );
        assert(tape.push(draws)[rounds - 1] == tape[rounds - 1]);
    }
}

/// Whether a search that may run `generations` rounds, started from `start`
/// and bred with the draws of `tape`, ends with `found`. It ends with none
/// only after it has bred `generations` times. It ends with a mutation
/// vector in an earlier round, and that vector is then the first individual,
/// in population order, to meet the target in the population that the
/// search holds after its last breeding. Under the largest target that is
/// the first individual of `start`.
pub open spec fn searched(
    header_prefix: Seq<u8>,
    target: Target,
    mv_len: nat,
    generations: nat,
    start: Seq<Seq<u8>>,
    tape: Seq<Seq<ChildDraw>>,
    found: Option<Seq<u8>>,
) -> bool {
    let last = population_after(header_prefix, target, start, tape, tape.len());
    &&& forall|i: int| 0 <= i < start.len() ==> (#[trigger] start[i]).len() == mv_len
    &&& bred_along(header_prefix, target, start, mv_len, tape)
    &&& found is None ==> tape.len() == generations
    &&& found matches Some(mutation_vector) ==> {
        &&& tape.len() < generations
        &&& exists|i: int|
            first_solving(header_prefix, last, target, i) && mutation_vector == last[i]
        &&& target@ >= pow256(32) - 1 ==> tape.len() == 0 && mutation_vector == start[0]
    }
}

/// A child is the crossover of its parents with at most one byte
/// overwritten: it has their length, and away from the position of its
/// mutation it has the first parent's bytes before the cut and the second
/// parent's from the cut on.
pub proof fn lemma_child_differs_in_one_byte(
    population: Seq<Seq<u8>>,
    fitness: Seq<Fitness>,
    draw: ChildDraw,
    mv_len: nat,
)
    requires
        forall|i: int| 0 <= i < population.len() ==> (#[trigger] population[i]).len() == mv_len,
        fitness.len() == population.len(),
        draw.valid(population.len(), mv_len),
    ensures
        child_of(population, fitness, draw).len() == mv_len,
        forall|j: int|
            0 <= j < mv_len && !(draw.mutation matches Some(m) && m.0 == j) ==> #[trigger] child_of(
                population,
                fitness,
                draw,
            )[j] == if j < draw.cut {
                population[tournament_winner(
                    fitness,
                    draw.first.0 as int,
                    draw.first.1 as int,
                )][j]
            } else {
                population[tournament_winner(
                    fitness,
                    draw.second.0 as int,
                    draw.second.1 as int,
                )][j]
            },
{
    let first = population[tournament_winner(fitness, draw.first.0 as int, draw.first.1 as int)];
    let second = population[tournament_winner(
        fitness,
        draw.second.0 as int,
        draw.second.1 as int,
    )];
    assert(first.len() == mv_len && second.len() == mv_len);
    assert(crossed(first, second, draw.cut as int).len() == mv_len);
}

/// Whether `best` is the best fitness of a round: one that none of the
/// round exceeds, and the earliest such. An empty round has none.
pub open spec fn is_best(fitness: Seq<Fitness>, best: Option<Fitness>) -> bool {
    match best {
        None => fitness.len() == 0,
        Some(f) => {
            &&& exists|i: int|
                0 <= i < fitness.len() && fitness[i] == f && forall|j: int|
                    0 <= j < i ==> f.better_than(#[trigger] fitness[j])
            &&& forall|j: int| 0 <= j < fitness.len() ==> !(#[trigger] fitness[j]).better_than(f)
        },
    }
}

/// Tournament selection between the individuals `first` and `second`.
pub fn tournament_select(fitness: &Vec<Fitness>, first: usize, second: usize) -> (winner: usize)
    requires
        first < fitness.len(),
        second < fitness.len(),
    ensures
        winner == tournament_winner(fitness@, first as int, second as int),
{
    if fitness[first].exceeds(&fitness[second]) {
        first
    } else {
        second
    }
}

/// One-point crossover of two parents of one length.
pub fn crossover(first: &[u8], second: &[u8], cut: usize) -> (child: Vec<u8>)
    requires
        first.len() == second.len(),
        cut <= first.len(),
    ensures
        child@ == crossed(first@, second@, cut as int),
        child@.len() == first.len(),
{
    let n: usize = first.len();
    let mut child: Vec<u8> = Vec::new();
    let mut i: usize = 0;
    while i < n
        invariant
            i <= n,
            n == first.len(),
            n == second.len(),
            cut <= n,
            child@.len() == i,
            forall|j: int|
                0 <= j < i ==> child@[j] == if j < cut {
                    first@[j]
                } else {
                    second@[j]
                },
        decreases n - i,
    {
        if i < cut {
            child.push(first[i]);
        } else {
            child.push(second[i]);
        }
        i += 1;
    }
    assert(child@ =~= crossed(first@, second@, cut as int));
    child
}

/// Makes the child that `draw` describes.
pub fn breed_child(population: &Population, fitness: &Vec<Fitness>, draw: &ChildDraw) -> (child:
    Vec<u8>)
    requires
        population.wf(),
        fitness.len() == population@.len(),
        draw.valid(population@.len(), population.mv_len as nat),
    ensures
        child@ == child_of(population@, fitness@, *draw),
        child@.len() == population.mv_len,
{
    let first = tournament_select(fitness, draw.first.0, draw.first.1);
    let second = tournament_select(fitness, draw.second.0, draw.second.1);
    assert(population@[first as int].len() == population.mv_len);
    assert(population@[second as int].len() == population.mv_len);
    let mut child = crossover(
        population.vectors[first].as_slice(),
        population.vectors[second].as_slice(),
        draw.cut,
    );
    match draw.mutation {
        Some(m) => {
            child.set(m.0, m.1);
        },
        None => {},
    }
    child
}

/// Builds the next population: one child for each element of `draws`, in
/// their order.
pub fn breed_generation(population: &Population, fitness: &Vec<Fitness>, draws: &Vec<ChildDraw>)
    -> (children: Population)
    requires
        population.wf(),
        fitness.len() == population@.len(),
        all_valid(draws@, population@.len(), population.mv_len as nat),
    ensures
        children.wf(),
        children.mv_len == population.mv_len,
        bred(population@, fitness@, draws@, children@),
{
    let mut vectors: Vec<Vec<u8>> = Vec::new();
    let mut k: usize = 0;
    while k < draws.len()
        invariant
            k <= draws.len(),
            population.wf(),
            fitness.len() == population@.len(),
            all_valid(draws@, population@.len(), population.mv_len as nat),
            vectors@.len() == k,
            forall|j: int|
                0 <= j < k ==> (#[trigger] vectors@[j])@ == child_of(
                    population@,
                    fitness@,
                    draws[j],
                ) && vectors@[j]@.len() == population.mv_len,
        decreases draws.len() - k,
    {
        let child = breed_child(population, fitness, &draws[k]);
        vectors.push(child);
        k += 1;
    }
    let children = Population { vectors, mv_len: population.mv_len };
    proof {
        assert forall|j: int| 0 <= j < draws@.len() implies #[trigger] children@[j] == child_of(
            population@,
            fitness@,
            draws@[j],
        ) by {
            assert(children.vectors@[j]@ == child_of(population@, fitness@, draws[j]));
        }
        assert forall|j: int| 0 <= j < children@.len() implies (#[trigger] children@[j]).len()
            == children.mv_len by {
            assert(children.vectors@[j]@.len() == population.mv_len);
        }
    }
    children
}

/// Breeding is a function of the population, its fitness and the draws:
/// the same three give the same children.
pub proof fn lemma_breeding_is_reproducible(
    population: Seq<Seq<u8>>,
    fitness: Seq<Fitness>,
    draws: Seq<ChildDraw>,
    once: Seq<Seq<u8>>,
    again: Seq<Seq<u8>>,
)
    requires
        bred(population, fitness, draws, once),
        bred(population, fitness, draws, again),
    ensures
        once == again,
{
    assert forall|k: int| 0 <= k < once.len() implies once[k] == again[k] by {
        assert(once[k] == child_of(population, fitness, draws[k]));
        assert(again[k] == child_of(population, fitness, draws[k]));
    }
    assert(once =~= again);
}

/// Draws what makes one child, in this order: the two contenders for the
/// first parent, the two for the second, the cut, whether to mutate and, if
/// so, where and to which byte. Of empty mutation vectors there is nothing
/// to cut or to mutate, and nothing is drawn for either.
pub fn draw_child(rng: &mut RandomSource, population_size: usize, mv_len: usize) -> (draw:
    ChildDraw)
    requires
        population_size > 0,
    ensures
        draw.valid(population_size as nat, mv_len as nat),
        mv_len == 0 ==> draw.cut == 0 && draw.mutation is None,
{
    let a = rng.index_below(population_size);
    let b = rng.index_below(population_size);
    let c = rng.index_below(population_size);
    let d = rng.index_below(population_size);
    if mv_len == 0 {
        return ChildDraw { first: (a, b), second: (c, d), cut: 0, mutation: None };
    }
    let cut = rng.index_below(mv_len);
    let mutation = if rng.chance(MUTATION_NUMERATOR, MUTATION_DENOMINATOR) {
        let at = rng.index_below(mv_len);
        let byte = rng.byte();
        Some((at, byte))
    } else {
        None
    };
    ChildDraw { first: (a, b), second: (c, d), cut, mutation }
}

/// Draws what makes a whole generation: one child for each individual,
/// child after child.
pub fn draw_generation(rng: &mut RandomSource, population_size: usize, mv_len: usize) -> (draws:
    Vec<ChildDraw>)
    ensures
        draws@.len() == population_size,
        all_valid(draws@, population_size as nat, mv_len as nat),
{
    let mut draws: Vec<ChildDraw> = Vec::new();
    let mut k: usize = 0;
    while k < population_size
        invariant
            k <= population_size,
            draws@.len() == k,
            all_valid(draws@, population_size as nat, mv_len as nat),
        decreases population_size - k,
    {
        let draw = draw_child(rng, population_size, mv_len);
        draws.push(draw);
        k += 1;
    }
    draws
}

/// Evaluates every individual of a population, in population order. The
/// evaluation of one does not depend on that of another.
pub fn evaluate_population(header_prefix: &[u8], target: &Target, population: &Population)
    -> (evaluations: Vec<Evaluation>)
    ensures
        evaluated(header_prefix@, population@, *target, evaluations@),
{
    let mut evaluations: Vec<Evaluation> = Vec::new();
    let mut i: usize = 0;
    while i < population.vectors.len()
        invariant
            i <= population.vectors.len(),
            evaluations@.len() == i,
            forall|j: int|
                0 <= j < i ==> (#[trigger] evaluations@[j]).of(
                    header_prefix@,
                    population@[j],
                    *target,
                ),
        decreases population.vectors.len() - i,
    {
        let e = evaluate(header_prefix, population.vectors[i].as_slice(), target);
        evaluations.push(e);
        i += 1;
    }
    evaluations
}

/// The first individual, in population order, whose evaluation shows a
/// solution.
pub fn first_solution(evaluations: &Vec<Evaluation>) -> (r: Option<usize>)
    ensures
        r matches Some(i) ==> i < evaluations.len() && evaluations[i as int].solved() && forall|
            j: int,
        | 0 <= j < i ==> !(#[trigger] evaluations[j]).solved(),
        r is None ==> forall|j: int|
            0 <= j < evaluations.len() ==> !(#[trigger] evaluations[j]).solved(),
{
    let mut i: usize = 0;
    while i < evaluations.len()
        invariant
            i <= evaluations.len(),
            forall|j: int| 0 <= j < i ==> !(#[trigger] evaluations[j]).solved(),
        decreases evaluations.len() - i,
    {
        if evaluations[i].is_solution() {
            return Some(i);
        }
        i += 1;
    }
    None
}

/// The fitness of each evaluation, in order.
pub fn fitness_values(evaluations: &Vec<Evaluation>) -> (fitness: Vec<Fitness>)
    ensures
        fitness@.len() == evaluations@.len(),
        forall|i: int| 0 <= i < fitness@.len() ==> fitness@[i] == evaluations@[i].fitness,
{
    let mut fitness: Vec<Fitness> = Vec::new();
    let mut i: usize = 0;
    while i < evaluations.len()
        invariant
            i <= evaluations.len(),
            fitness@.len() == i,
            forall|j: int| 0 <= j < i ==> fitness@[j] == evaluations@[j].fitness,
        decreases evaluations.len() - i,
    {
        fitness.push(evaluations[i].fitness);
        i += 1;
    }
    fitness
}

/// The best fitness of a round.
pub fn best_fitness(fitness: &Vec<Fitness>) -> (best: Option<Fitness>)
    ensures
        is_best(fitness@, best),
{
    if fitness.len() == 0 {
        return None;
    }
    let mut at: usize = 0;
    let mut i: usize = 1;
    while i < fitness.len()
        invariant
            1 <= i <= fitness.len(),
            at < i,
            forall|j: int|
                0 <= j < i ==> !(#[trigger] fitness@[j]).better_than(fitness@[at as int]),
            forall|j: int| 0 <= j < at ==> fitness@[at as int].better_than(#[trigger] fitness@[j]),
        decreases fitness.len() - i,
    {
        if fitness[i].exceeds(&fitness[at]) {
            at = i;
        }
        i += 1;
    }
    Some(fitness[at])
}

/// What evaluating a population showed.
#[derive(Debug)]
pub enum Survey {
    /// An individual meets the target; this is the first that does, in
    /// population order.
    Found(Solution),
    /// None does. With it comes the fitness of each, in population order.
    Unsolved(Vec<Fitness>),
}

/// Evaluates the whole population and looks for the first individual, in
/// population order, that meets the target.
pub fn survey(header_prefix: &[u8], target: &Target, population: &Population) -> (r: Survey)
    ensures
        r is Found <==> some_solves(header_prefix@, population@, *target),
        population@.len() > 0 && target@ >= pow256(32) - 1 ==> (r matches Survey::Found(s)
            && s.mutation_vector@ == population@[0]),
        r matches Survey::Found(s) ==> {
            &&& s.valid_for(header_prefix@, *target)
            &&& exists|i: int|
                first_solving(header_prefix@, population@, *target, i) && s.mutation_vector@
                    == population@[i]
        },
        r matches Survey::Unsolved(f) ==> f@ == population_fitness(
            header_prefix@,
            population@,
            *target,
        ),
{
    let evaluations = evaluate_population(header_prefix, target, population);
    proof {
        assert forall|i: int| 0 <= i < population@.len() implies (
        #[trigger] evaluations@[i]).solved() == solves(header_prefix@, population@[i], *target) by {
            lemma_solved_iff_solves(evaluations@[i], header_prefix@, population@[i], *target);
        }
        if population@.len() > 0 && target@ >= pow256(32) - 1 {
            lemma_be_value_bound(evaluations@[0].digest@);
            lemma_solved_iff_solves(evaluations@[0], header_prefix@, population@[0], *target);
        }
    }
    match first_solution(&evaluations) {
        Some(i) => {
            let mutation_vector = copy_bytes(population.vectors[i].as_slice());
            let s = Solution { mutation_vector, digest: evaluations[i].digest };
            proof {
                assert(evaluations@[i as int].of(header_prefix@, population@[i as int], *target));
                lemma_solved_iff_solves(
                    evaluations@[i as int],
                    header_prefix@,
                    population@[i as int],
                    *target,
                );
                assert(first_solving(header_prefix@, population@, *target, i as int)) by {
                    assert forall|j: int| 0 <= j < i implies !solves(
                        header_prefix@,
                        #[trigger] population@[j],
                        *target,
                    ) by {
                        assert(!evaluations@[j].solved());
                    }
                }
            }
            Survey::Found(s)
        },
        None => {
            let fitness = fitness_values(&evaluations);
            proof {
                assert forall|i: int| 0 <= i < population@.len() implies !solves(
                    header_prefix@,
                    #[trigger] population@[i],
                    *target,
                ) by {
                    assert(!evaluations@[i].solved());
                }
                assert(fitness@ =~= population_fitness(header_prefix@, population@, *target));
            }
            Survey::Unsolved(fitness)
        },
    }
}

/// What a round of the search came to.
#[derive(Debug)]
pub enum Round {
    /// An individual met the target.
    Found(Solution),
    /// None did, and the population was replaced by its children. With it
    /// comes the best fitness of the round.
    Evolved(Option<Fitness>),
    /// The rounds allowed had all been run.
    Exhausted,
}

/// A genetic search in progress.
#[derive(Debug)]
pub struct GeneticSearch {
    /// The current population.
    pub population: Population,
    /// The number of rounds allowed.
    pub generations: usize,
    /// The number of rounds run.
    pub generation: usize,
    /// The number of candidates evaluated.
    pub evaluations: u128,
}

/// Two machine-sized numbers have a product that fits in 128 bits.
proof fn lemma_product_fits(a: nat, b: nat)
    requires
        a <= usize::MAX,
        b <= usize::MAX,
    ensures
        a * b <= u128::MAX,
{
    assert(a * b <= 0xffff_ffff_ffff_ffff * 0xffff_ffff_ffff_ffff) by (nonlinear_arith)
        requires
            a <= 0xffff_ffff_ffff_ffff,
            b <= 0xffff_ffff_ffff_ffff,
    ;
}

impl GeneticSearch {
    /// Whether the population is well formed and the counters agree: every
    /// round evaluates the whole population.
    pub open spec fn wf(self) -> bool {
        &&& self.population.wf()
        &&& self.generation <= self.generations
        &&& self.evaluations == self.generation * self.population@.len()
    }

    /// A search that starts from `population` and may run `generations`
    /// rounds.
    pub fn new(population: Population, generations: usize) -> (s: GeneticSearch)
        requires
            population.wf(),
        ensures
            s.wf(),
            s.population == population,
            s.generations == generations,
            s.generation == 0,
    {
        assert(0 * population@.len() == 0);
        GeneticSearch { population, generations, generation: 0, evaluations: 0 }
    }

    /// Breeds the next population from the fitness of the current one and
    /// puts it in its place.
    fn evolve(&mut self, fitness: &Vec<Fitness>, rng: &mut RandomSource) -> (best: Option<Fitness>)
        requires
            old(self).population.wf(),
            fitness@.len() == old(self).population@.len(),
        ensures
            final(self).population.wf(),
            final(self).population.mv_len == old(self).population.mv_len,
            final(self).population@.len() == old(self).population@.len(),
            final(self).generations == old(self).generations,
            final(self).generation == old(self).generation,
            final(self).evaluations == old(self).evaluations,
            is_best(fitness@, best),
            exists|draws: Seq<ChildDraw>|
                all_valid(draws, old(self).population@.len(), old(self).population.mv_len as nat)
                    && #[trigger] bred(
                    old(self).population@,
                    fitness@,
                    draws,
                    final(self).population@,
                ),
    {
        let best = best_fitness(fitness);
        let draws = draw_generation(rng, self.population.len(), self.population.mv_len);
        let children = breed_generation(&self.population, fitness, &draws);
        assert(bred(self.population@, fitness@, draws@, children@));
        self.population = children;
        best
    }

    /// One round on evaluations that the caller made, which may have been
    /// made individual by individual on as many threads as it likes. They
    /// are taken as advice. The first individual that they show to meet the
    /// target is hashed again here; if it does not meet the target after
    /// all, the advice is dropped and the population is evaluated here.
    /// Where they show no individual to meet the target, their fitness
    /// guides the breeding of the next population.
    ///
    /// Whatever the evaluations, a solution that is given is a solution. If
    /// they are those of the population, the round is that of `step`.
    pub fn step_with(
        &mut self,
        header_prefix: &[u8],
        target: &Target,
        evaluations: &Vec<Evaluation>,
        rng: &mut RandomSource,
    ) -> (round: Round)
        requires
            old(self).wf(),
            evaluations@.len() == old(self).population@.len(),
        ensures
            final(self).wf(),
            final(self).generations == old(self).generations,
            final(self).population.mv_len == old(self).population.mv_len,
            final(self).population@.len() == old(self).population@.len(),
            old(self).generation == old(self).generations ==> round is Exhausted && *final(self)
                == *old(self),
            old(self).generation < old(self).generations ==> final(self).generation == old(
                self,
            ).generation + 1 && !(round is Exhausted),
            round matches Round::Found(s) ==> {
                &&& final(self).population == old(self).population
                &&& s.valid_for(header_prefix@, *target)
                &&& exists|i: int|
                    0 <= i < old(self).population@.len() && s.mutation_vector@ == old(
                        self,
                    ).population@[i]
            },
            old(self).generation < old(self).generations && evaluated(
                header_prefix@,
                old(self).population@,
                *target,
                evaluations@,
            ) ==> {
                &&& round is Found <==> some_solves(
                    header_prefix@,
                    old(self).population@,
                    *target,
                )
                &&& round matches Round::Found(s) ==> exists|i: int|
                    first_solving(header_prefix@, old(self).population@, *target, i)
                        && s.mutation_vector@ == old(self).population@[i]
                &&& round matches Round::Evolved(best) ==> {
                    &&& is_best(
                        population_fitness(header_prefix@, old(self).population@, *target),
                        best,
                    )
                    &&& exists|draws: Seq<ChildDraw>|
                        all_valid(
                            draws,
                            old(self).population@.len(),
                            old(self).population.mv_len as nat,
                        ) && #[trigger] bred(
                            old(self).population@,
                            population_fitness(header_prefix@, old(self).population@, *target),
                            draws,
                            final(self).population@,
                        )
                }
            },
    {
        if self.generation >= self.generations {
            return Round::Exhausted;
        }
        let size: usize = self.population.len();
        proof {
            lemma_product_fits((self.generation + 1) as nat, size as nat);
            assert((self.generation + 1) * size == self.generation * size + size)
                by (nonlinear_arith);
            if evaluated(header_prefix@, self.population@, *target, evaluations@) {
                assert forall|i: int| 0 <= i < size implies (
                #[trigger] evaluations@[i]).solved() == solves(
                    header_prefix@,
                    self.population@[i],
                    *target,
                ) by {
                    lemma_solved_iff_solves(
                        evaluations@[i],
                        header_prefix@,
                        self.population@[i],
                        *target,
                    );
                }
            }
        }
        self.generation = self.generation + 1;
        self.evaluations = self.evaluations + size as u128;
        match first_solution(evaluations) {
            Some(i) => {
                assert(self.population@[i as int] == self.population.vectors@[i as int]@);
                match verify_candidate(
                    header_prefix,
                    self.population.vectors[i].as_slice(),
                    target,
                ) {
                    Some(s) => {
                        proof {
                            if evaluated(header_prefix@, self.population@, *target, evaluations@) {
                                assert(first_solving(
                                    header_prefix@,
                                    self.population@,
                                    *target,
                                    i as int,
                                )) by {
                                    assert forall|j: int| 0 <= j < i implies !solves(
                                        header_prefix@,
                                        #[trigger] self.population@[j],
                                        *target,
                                    ) by {
                                        assert(!evaluations@[j].solved());
                                    }
                                }
                            }
                        }
                        Round::Found(s)
                    },
                    None => {
                        assert(!evaluated(header_prefix@, self.population@, *target, evaluations@))
                            by {
                            assert(evaluations@[i as int].solved());
                        }
                        match survey(header_prefix, target, &self.population) {
                            Survey::Found(s) => {
                                proof {
                                    let k = choose|k: int|
                                        first_solving(header_prefix@, self.population@, *target, k)
                                            && s.mutation_vector@ == self.population@[k];
                                    assert(0 <= k < self.population@.len());
                                }
                                Round::Found(s)
                            },
                            Survey::Unsolved(fitness) => Round::Evolved(self.evolve(&fitness, rng)),
                        }
                    },
                }
            },
            None => {
                let fitness = fitness_values(evaluations);
                proof {
                    if evaluated(header_prefix@, self.population@, *target, evaluations@) {
                        assert forall|i: int| 0 <= i < size implies !solves(
                            header_prefix@,
                            #[trigger] self.population@[i],
                            *target,
                        ) by {
                            assert(!evaluations@[i].solved());
                        }
                        assert(fitness@ =~= population_fitness(
                            header_prefix@,
                            self.population@,
                            *target,
                        ));
                    }
                }
                Round::Evolved(self.evolve(&fitness, rng))
            },
        }
    }

    /// One round: evaluates the whole population; if an individual meets
    /// the target, gives the first such in population order; otherwise
    /// replaces the population by as many children of it. No individual is
    /// carried over as it is.
    pub fn step(&mut self, header_prefix: &[u8], target: &Target, rng: &mut RandomSource) -> (round:
        Round)
        requires
            old(self).wf(),
        ensures
            final(self).wf(),
            final(self).generations == old(self).generations,
            final(self).population.mv_len == old(self).population.mv_len,
            final(self).population@.len() == old(self).population@.len(),
            old(self).generation == old(self).generations ==> round is Exhausted && *final(self)
                == *old(self),
            old(self).generation < old(self).generations ==> {
                &&& final(self).generation == old(self).generation + 1
                &&& !(round is Exhausted)
                &&& round is Found <==> some_solves(
                    header_prefix@,
                    old(self).population@,
                    *target,
                )
                &&& old(self).population@.len() > 0 && target@ >= pow256(32) - 1 ==> (round
                    matches Round::Found(s) && s.mutation_vector@ == old(self).population@[0])
            },
            round matches Round::Found(s) ==> {
                &&& final(self).population == old(self).population
                &&& s.valid_for(header_prefix@, *target)
                &&& exists|i: int|
                    first_solving(header_prefix@, old(self).population@, *target, i)
                        && s.mutation_vector@ == old(self).population@[i]
            },
            round matches Round::Evolved(best) ==> {
                &&& is_best(
                    population_fitness(header_prefix@, old(self).population@, *target),
                    best,
                )
                &&& exists|draws: Seq<ChildDraw>|
                    all_valid(
                        draws,
                        old(self).population@.len(),
                        old(self).population.mv_len as nat,
                    ) && #[trigger] bred(
                        old(self).population@,
                        population_fitness(header_prefix@, old(self).population@, *target),
                        draws,
                        final(self).population@,
                    )
            },
    {
        if self.generation >= self.generations {
            return Round::Exhausted;
        }
        let evaluations = evaluate_population(header_prefix, target, &self.population);
        proof {
            if self.population@.len() > 0 && target@ >= pow256(32) - 1 {
                lemma_be_value_bound(evaluations@[0].digest@);
                lemma_solved_iff_solves(
                    evaluations@[0],
                    header_prefix@,
                    self.population@[0],
                    *target,
                );
            }
        }
        self.step_with(header_prefix, target, &evaluations, rng)
    }

    /// Runs rounds until an individual meets the target or the rounds
    /// allowed are used up. The search goes where its draws lead it: it
    /// breeds as long as no individual of the current population meets the
    /// target, and stops at the first population in which one does, with
    /// the first such individual.
    pub fn run(&mut self, header_prefix: &[u8], target: &Target, rng: &mut RandomSource) -> (r:
        Option<Solution>)
        requires
            old(self).wf(),
        ensures
            final(self).wf(),
            final(self).generations == old(self).generations,
            final(self).population.mv_len == old(self).population.mv_len,
            final(self).population@.len() == old(self).population@.len(),
            r matches Some(s) ==> {
                &&& s.valid_for(header_prefix@, *target)
                &&& s.mutation_vector@.len() == old(self).population.mv_len
                &&& old(self).population@.len() > 0
            },
            r is None ==> final(self).generation == final(self).generations,
            exists|tape: Seq<Seq<ChildDraw>>|
                {
                    &&& #[trigger] bred_along(
                        header_prefix@,
                        *target,
                        old(self).population@,
                        old(self).population.mv_len as nat,
                        tape,
                    )
                    &&& final(self).population@ == population_after(
                        header_prefix@,
                        *target,
                        old(self).population@,
                        tape,
                        tape.len(),
                    )
                    &&& final(self).generation == old(self).generation + tape.len() + if r
                        is Some {
                        1int
                    } else {
                        0int
                    }
                    &&& r matches Some(s) ==> exists|i: int|
                        first_solving(header_prefix@, final(self).population@, *target, i)
                            && s.mutation_vector@ == final(self).population@[i]
                },
            old(self).generation < old(self).generations && some_solves(
                header_prefix@,
                old(self).population@,
                *target,
            ) ==> {
                &&& r matches Some(s)
                &&& final(self).generation == old(self).generation + 1
                &&& exists|i: int|
                    first_solving(header_prefix@, old(self).population@, *target, i)
                        && s.mutation_vector@ == old(self).population@[i]
            },
            old(self).population@.len() > 0 && target@ >= pow256(32) - 1 && old(self).generation
                < old(self).generations ==> {
                &&& r matches Some(s)
                &&& s.mutation_vector@ == old(self).population@[0]
                &&& final(self).generation == old(self).generation + 1
            },
    {
        let ghost start = self.population@;
        let ghost mv_len = self.population.mv_len as nat;
        let ghost first = self.generation;
        let ghost certain = self.generation < self.generations && (some_solves(
            header_prefix@,
            start,
            *target,
        ) || (start.len() > 0 && target@ >= pow256(32) - 1));
        let ghost mut tape: Seq<Seq<ChildDraw>> = Seq::empty();
        loop
            invariant
                self.wf(),
                self.generations == old(self).generations,
                self.population.mv_len == mv_len,
                self.population@.len() == start.len(),
                start == old(self).population@,
                mv_len == old(self).population.mv_len,
                first == old(self).generation,
                self.generation == first + tape.len(),
                bred_along(header_prefix@, *target, start, mv_len, tape),
                self.population@ == population_after(
                    header_prefix@,
                    *target,
                    start,
                    tape,
                    tape.len(),
                ),
                certain == (first < old(self).generations && (some_solves(
                    header_prefix@,
                    start,
                    *target,
                ) || (start.len() > 0 && target@ >= pow256(32) - 1))),
                certain ==> tape.len() == 0,
            decreases self.generations - self.generation,
        {
            let ghost before = self.population;
            match self.step(header_prefix, target, rng) {
                Round::Found(s) => {
                    proof {
                        let i = choose|i: int|
                            first_solving(header_prefix@, before@, *target, i)
                                && s.mutation_vector@ == before@[i];
                        assert(before@[i].len() == before.mv_len);
                    }
                    return Some(s);
                },
                Round::Exhausted => {
                    return None;
                },
                Round::Evolved(_) => {
                    proof {
                        let fitness = population_fitness(header_prefix@, before@, *target);
                        let draws = choose|draws: Seq<ChildDraw>|
                            all_valid(draws, before@.len(), before.mv_len as nat)
                                && #[trigger] bred(before@, fitness, draws, self.population@);
                        let longer = tape.push(draws);
                        assert forall|k: int| 0 <= k < longer.len() implies {
                            &&& (#[trigger] longer[k]).len() == start.len()
                            &&& all_valid(longer[k], start.len(), mv_len)
                            &&& !some_solves(
                                header_prefix@,
                                population_after(header_prefix@, *target, start, longer, k as nat),
                                *target,
                            )
                        } by {
                            lemma_population_after_extended(
                                header_prefix@,
                                *target,
                                start,
                                tape,
                                draws,
                                k as nat,
                            );
                            if k < tape.len() {
                                assert(longer[k] == tape[k]);
                            }
                        }
                        lemma_population_after_extended(
                            header_prefix@,
                            *target,
                            start,
                            tape,
                            draws,
                            tape.len(),
                        );
                        assert(self.population@ =~= children_of(before@, fitness, draws));
                        assert(longer[longer.len() - 1] == draws);
                        tape = longer;
                    }
                },
            }
        }
    }
}

/// How a search ended.
#[derive(Debug)]
pub struct SearchReport {
    /// The solution, if one was found.
    pub solution: Option<Solution>,
    /// The number of rounds run.
    pub generations_run: usize,
    /// The number of candidates evaluated.
    pub evaluations: u128,
}

/// The genetic search on the host: starts from a random population of
/// `population` mutation vectors of `mv_len` bytes and runs up to
/// `generations` rounds. A search that finds nothing within them ends
/// without a solution, which is no error.
pub fn run_ga(
    header_prefix: &[u8],
    target: &Target,
    mv_len: usize,
    population: usize,
    generations: usize,
    rng: &mut RandomSource,
) -> (report: SearchReport)
    ensures
        report.evaluations == report.generations_run * population,
        report.solution matches Some(s) ==> {
            &&& s.valid_for(header_prefix@, *target)
            &&& s.mutation_vector@.len() == mv_len
            &&& 1 <= report.generations_run <= generations
            &&& population > 0
        },
        report.solution is None ==> report.generations_run == generations,
        report.solution is None && population > 0 && generations > 0 ==> some_fails(
            header_prefix@,
            mv_len,
            *target,
        ),
        population > 0 && generations > 0 && target@ >= pow256(32) - 1 ==> report.solution is Some
            && report.generations_run == 1,
        exists|start: Seq<Seq<u8>>, tape: Seq<Seq<ChildDraw>>|
            {
                &&& start.len() == population
                &&& #[trigger] searched(
                    header_prefix@,
                    *target,
                    mv_len as nat,
                    generations as nat,
                    start,
                    tape,
                    vector_of(report.solution),
                )
                &&& report.generations_run == tape.len() + if report.solution is Some {
                    1int
                } else {
                    0int
                }
            },
{
    let start = Population::random(population, mv_len, rng);
    let ghost first = start@;
    let mut search = GeneticSearch::new(start, generations);
    let solution = search.run(header_prefix, target, rng);
    proof {
        if solution is None && population > 0 && generations > 0 {
            assert(!solves(header_prefix@, first[0], *target));
            assert(first[0].len() == mv_len);
        }
        let tape = choose|tape: Seq<Seq<ChildDraw>>|
            {
                &&& #[trigger] bred_along(header_prefix@, *target, first, mv_len as nat, tape)
                &&& search.population@ == population_after(
                    header_prefix@,
                    *target,
                    first,
                    tape,
                    tape.len(),
                )
                &&& search.generation == 0 + tape.len() + if solution is Some {
                    1int
                } else {
                    0int
                }
                &&& solution matches Some(s) ==> exists|i: int|
                    first_solving(header_prefix@, search.population@, *target, i)
                        && s.mutation_vector@ == search.population@[i]
            };
        assert(searched(
            header_prefix@,
            *target,
            mv_len as nat,
            generations as nat,
            first,
            tape,
            vector_of(solution),
        ));
    }
    SearchReport { solution, generations_run: search.generation, evaluations: search.evaluations }
}

/// The mutation vector of a pair of mutation vector and digest, where there
/// is one.
pub open spec fn vector_of_pair(found: Option<(Vec<u8>, [u8; 32])>) -> Option<Seq<u8>> {
    match found {
        Some(pair) => Some(pair.0@),
        None => None,
    }
}

/// The genetic search on the host, giving the mutation vector and digest of
/// the solution, if one was found. It is the search of `run_ga`: it starts
/// from a random population, runs up to `generations` rounds, in each of
/// which the whole population is evaluated, and stops at the first
/// population in which an individual meets the target, with the first such
/// individual.
pub fn cpu_ga_mine(
    header_prefix: &[u8],
    target: &Target,
    population_size: usize,
    mv_len: usize,
    generations: usize,
    rng: &mut RandomSource,
) -> (r: Option<(Vec<u8>, [u8; 32])>)
    ensures
        r matches Some(found) ==> {
            &&& found.0@.len() == mv_len
            &&& found.1@ == blake3_digest(candidate_bytes(header_prefix@, found.0@))
            &&& be_value(found.1@) <= target@
            &&& population_size > 0
            &&& generations > 0
        },
        r is None && population_size > 0 && generations > 0 ==> some_fails(
            header_prefix@,
            mv_len,
            *target,
        ),
        population_size > 0 && generations > 0 && target@ >= pow256(32) - 1 ==> r is Some,
        exists|start: Seq<Seq<u8>>, tape: Seq<Seq<ChildDraw>>|
            start.len() == population_size && #[trigger] searched(
                header_prefix@,
                *target,
                mv_len as nat,
                generations as nat,
                start,
                tape,
                vector_of_pair(r),
            ),
{
    let report = run_ga(header_prefix, target, mv_len, population_size, generations, rng);
    let ghost found = vector_of(report.solution);
    let r = match report.solution {
        Some(s) => Some((s.mutation_vector, s.digest)),
        None => None,
    };
    assert(vector_of_pair(r) == found);
    r
}

} // verus!
