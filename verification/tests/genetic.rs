use xenom_miner::evaluator::{evaluate, hash, Evaluation, Fitness};
use xenom_miner::genetic::{
    best_fitness, breed_child, breed_generation, cpu_ga_mine, crossover, draw_child,
    draw_generation, evaluate_population, first_solution, fitness_values, run_ga, survey,
    tournament_select, ChildDraw, GeneticSearch, Population, Round, Survey,
    MUTATION_DENOMINATOR, MUTATION_NUMERATOR,
};
use xenom_miner::random::RandomSource;
use xenom_miner::target::Target;

fn bits(values: &[u32]) -> Vec<Fitness> {
    values.iter().map(|b| Fitness { overshoot_bits: *b }).collect()
}

fn population(vectors: &[&[u8]], mv_len: usize) -> Population {
    Population::from_vectors(vectors.iter().map(|v| v.to_vec()).collect(), mv_len).unwrap()
}

#[test]
fn tournament_prefers_the_first_only_if_strictly_better() {
    let fitness = bits(&[200, 100, 100, 250]);
    assert_eq!(tournament_select(&fitness, 0, 1), 1);
    assert_eq!(tournament_select(&fitness, 1, 0), 1);
    assert_eq!(tournament_select(&fitness, 1, 2), 2);
    assert_eq!(tournament_select(&fitness, 2, 1), 1);
    assert_eq!(tournament_select(&fitness, 3, 3), 3);
    assert_eq!(tournament_select(&fitness, 0, 3), 0);
}

#[test]
fn crossover_takes_head_and_tail() {
    let (a, b) = ([1u8, 2, 3, 4], [9u8, 8, 7, 6]);
    assert_eq!(crossover(&a, &b, 0), vec![9, 8, 7, 6]);
    assert_eq!(crossover(&a, &b, 1), vec![1, 8, 7, 6]);
    assert_eq!(crossover(&a, &b, 3), vec![1, 2, 3, 6]);
    assert_eq!(crossover(&a, &b, 4), vec![1, 2, 3, 4]);
    assert_eq!(crossover(&[], &[], 0), Vec::<u8>::new());
}

#[test]
fn a_child_is_made_as_its_draw_says() {
    let p = population(&[&[1, 1, 1, 1], &[2, 2, 2, 2], &[3, 3, 3, 3]], 4);
    let fitness = bits(&[250, 240, 230]);
    let draw = ChildDraw { first: (0, 1), second: (2, 0), cut: 1, mutation: None };
    assert_eq!(breed_child(&p, &fitness, &draw), vec![2, 3, 3, 3]);
    let draw = ChildDraw { first: (1, 2), second: (0, 1), cut: 3, mutation: Some((0, 0xee)) };
    assert_eq!(breed_child(&p, &fitness, &draw), vec![0xee, 3, 3, 2]);
    let draw = ChildDraw { first: (1, 1), second: (1, 1), cut: 2, mutation: Some((3, 7)) };
    assert_eq!(breed_child(&p, &fitness, &draw), vec![2, 2, 2, 7]);
}

#[test]
fn a_generation_has_one_child_for_each_draw() {
    let p = population(&[&[1, 1], &[2, 2]], 2);
    let fitness = bits(&[9, 8]);
    let draws = vec![
        ChildDraw { first: (0, 0), second: (1, 1), cut: 1, mutation: None },
        ChildDraw { first: (0, 1), second: (1, 0), cut: 0, mutation: None },
        ChildDraw { first: (1, 0), second: (0, 0), cut: 1, mutation: Some((1, 5)) },
    ];
    let children = breed_generation(&p, &fitness, &draws);
    assert_eq!(children.mv_len, 2);
    assert_eq!(children.vectors, vec![vec![1, 2], vec![2, 2], vec![2, 5]]);
    assert_eq!(breed_generation(&p, &fitness, &Vec::new()).vectors.len(), 0);
}

#[test]
fn breeding_is_reproducible_from_a_seed() {
    let mut setup = RandomSource::seeded(99);
    let p = Population::random(16, 8, &mut setup);
    let target = Target::zero();
    let fitness = fitness_values(&evaluate_population(b"hdr", &target, &p));
    let mut once = RandomSource::seeded(1234);
    let mut again = RandomSource::seeded(1234);
    let first = breed_generation(&p, &fitness, &draw_generation(&mut once, 16, 8));
    let second = breed_generation(&p, &fitness, &draw_generation(&mut again, 16, 8));
    assert_eq!(first.vectors, second.vectors);
    assert_eq!(first.vectors.len(), 16);
    let mut other = RandomSource::seeded(4321);
    let third = breed_generation(&p, &fitness, &draw_generation(&mut other, 16, 8));
    assert_ne!(first.vectors, third.vectors);
}

#[test]
fn a_whole_search_is_reproducible_from_a_seed() {
    let target = Target::zero();
    let mut a = GeneticSearch::new(Population::random(8, 4, &mut RandomSource::seeded(5)), 4);
    let mut b = GeneticSearch::new(Population::random(8, 4, &mut RandomSource::seeded(5)), 4);
    let (mut ra, mut rb) = (RandomSource::seeded(6), RandomSource::seeded(6));
    for _ in 0..4 {
        assert!(matches!(a.step(b"h", &target, &mut ra), Round::Evolved(_)));
        assert!(matches!(b.step(b"h", &target, &mut rb), Round::Evolved(_)));
        assert_eq!(a.population.vectors, b.population.vectors);
    }
}

#[test]
fn draws_fit_the_population() {
    let mut rng = RandomSource::seeded(11);
    let mut mutated = 0;
    for _ in 0..5000 {
        let d = draw_child(&mut rng, 7, 5);
        assert!(d.first.0 < 7 && d.first.1 < 7 && d.second.0 < 7 && d.second.1 < 7);
        assert!(d.cut < 5);
        if let Some((at, _)) = d.mutation {
            assert!(at < 5);
            mutated += 1;
        }
    }
    assert!(50 < mutated && mutated < 150, "{}", mutated);
    assert_eq!((MUTATION_NUMERATOR, MUTATION_DENOMINATOR), (1, 50));
    assert_eq!(draw_generation(&mut rng, 7, 5).len(), 7);
    assert_eq!(draw_generation(&mut rng, 0, 5).len(), 0);
}

#[test]
fn empty_vectors_are_neither_cut_nor_mutated() {
    let mut rng = RandomSource::seeded(12);
    for _ in 0..200 {
        let d = draw_child(&mut rng, 3, 0);
        assert_eq!(d.cut, 0);
        assert!(d.mutation.is_none());
    }
    let report = run_ga(b"h", &Target::zero(), 0, 3, 2, &mut rng);
    assert!(report.solution.is_none());
    assert_eq!(report.evaluations, 6);
}

#[test]
fn a_population_is_read_from_a_flat_buffer() {
    let p = Population::from_flat(&[1, 2, 3, 4, 5, 6], 3, 2).unwrap();
    assert_eq!(p.vectors, vec![vec![1, 2], vec![3, 4], vec![5, 6]]);
    assert_eq!(p.len(), 3);
    assert!(Population::from_flat(&[1, 2, 3, 4, 5], 3, 2).is_none());
    assert!(Population::from_flat(&[1, 2, 3, 4, 5, 6, 7], 3, 2).is_none());
    assert!(Population::from_flat(&[], usize::MAX, 2).is_none());
    assert_eq!(Population::from_flat(&[], 0, 9).unwrap().len(), 0);
    assert_eq!(Population::from_flat(&[], 4, 0).unwrap().vectors, vec![Vec::<u8>::new(); 4]);
}

#[test]
fn a_population_needs_vectors_of_one_length() {
    assert!(Population::from_vectors(vec![vec![1, 2], vec![3]], 2).is_none());
    assert!(Population::from_vectors(vec![vec![1, 2], vec![3, 4]], 3).is_none());
    assert!(Population::from_vectors(vec![vec![1, 2], vec![3, 4]], 2).is_some());
    let p = Population::random(5, 3, &mut RandomSource::seeded(1));
    assert_eq!(p.len(), 5);
    assert!(p.vectors.iter().all(|v| v.len() == 3));
}

#[test]
fn the_first_solution_in_population_order_wins() {
    let vectors: Vec<&[u8]> = vec![&[0, 0], &[0, 1], &[0, 2], &[0, 3]];
    let p = population(&vectors, 2);
    let digests: Vec<[u8; 32]> = vectors.iter().map(|v| hash(b"h", v)).collect();
    let mut sorted = digests.clone();
    sorted.sort();
    let target = Target { bytes: sorted[1] };
    let expected = digests.iter().position(|d| *d <= sorted[1]).unwrap();
    let evaluations = evaluate_population(b"h", &target, &p);
    assert_eq!(first_solution(&evaluations), Some(expected));
    match survey(b"h", &target, &p) {
        Survey::Found(s) => {
            assert_eq!(s.mutation_vector, vectors[expected].to_vec());
            assert_eq!(s.digest, digests[expected]);
        }
        Survey::Unsolved(_) => panic!("two individuals meet the target"),
    }
    match survey(b"h", &Target::zero(), &p) {
        Survey::Unsolved(f) => {
            let expected: Vec<Fitness> =
                vectors.iter().map(|v| evaluate(b"h", v, &Target::zero()).fitness).collect();
            assert_eq!(f, expected);
        }
        Survey::Found(_) => panic!("nothing meets the target zero here"),
    }
    assert_eq!(first_solution(&evaluate_population(b"h", &Target::zero(), &p)), None);
    assert_eq!(first_solution(&evaluate_population(b"h", &Target::max(), &p)), Some(0));
}

#[test]
fn the_best_fitness_is_the_earliest_unbeaten() {
    assert_eq!(best_fitness(&bits(&[])), None);
    assert_eq!(best_fitness(&bits(&[250, 240, 245, 240])), Some(Fitness { overshoot_bits: 240 }));
    assert_eq!(best_fitness(&bits(&[3])), Some(Fitness { overshoot_bits: 3 }));
    assert_eq!(best_fitness(&bits(&[1, 0, 2])), Some(Fitness { overshoot_bits: 1 }));
}

#[test]
fn largest_target_is_solved_in_generation_zero() {
    let mut rng = RandomSource::seeded(21);
    let report = run_ga(&[], &Target::max(), 4, 8, 1, &mut rng);
    let s = report.solution.unwrap();
    assert_eq!(report.generations_run, 1);
    assert_eq!(report.evaluations, 8);
    assert_eq!(s.mutation_vector.len(), 4);
    assert_eq!(s.digest, *blake3::hash(&s.mutation_vector).as_bytes());
    let mut again = RandomSource::seeded(21);
    let first = Population::random(8, 4, &mut again);
    assert_eq!(s.mutation_vector, first.vectors[0]);
}

#[test]
fn target_zero_exhausts_three_generations_of_eight() {
    let mut rng = RandomSource::seeded(22);
    let report = run_ga(b"header", &Target::zero(), 4, 8, 3, &mut rng);
    assert!(report.solution.is_none());
    assert_eq!(report.generations_run, 3);
    assert_eq!(report.evaluations, 24);
}

#[test]
fn no_generations_or_no_population_find_nothing() {
    let mut rng = RandomSource::seeded(23);
    let report = run_ga(b"h", &Target::max(), 4, 8, 0, &mut rng);
    assert!(report.solution.is_none());
    assert_eq!((report.generations_run, report.evaluations), (0, 0));
    let report = run_ga(b"h", &Target::max(), 4, 0, 5, &mut rng);
    assert!(report.solution.is_none());
    assert_eq!((report.generations_run, report.evaluations), (5, 0));
}

#[test]
fn a_feasible_target_is_found_and_verified() {
    let mut target = [0xffu8; 32];
    target[0] = 0x07;
    let target = Target { bytes: target };
    let mut rng = RandomSource::seeded(24);
    let report = run_ga(b"block header", &target, 8, 64, 50, &mut rng);
    let s = report.solution.expect("about one candidate in 32 qualifies");
    let mut candidate = b"block header".to_vec();
    candidate.extend_from_slice(&s.mutation_vector);
    assert_eq!(s.digest, *blake3::hash(&candidate).as_bytes());
    assert!(s.digest <= target.bytes);
    assert_eq!(report.evaluations, report.generations_run as u128 * 64);
}

#[test]
fn cpu_ga_mine_gives_vector_and_digest() {
    let mut rng = RandomSource::seeded(25);
    let (mv, digest) = cpu_ga_mine(b"p", &Target::max(), 8, 4, 1, &mut rng).unwrap();
    assert_eq!(mv.len(), 4);
    let mut candidate = b"p".to_vec();
    candidate.extend_from_slice(&mv);
    assert_eq!(digest, *blake3::hash(&candidate).as_bytes());
    assert!(cpu_ga_mine(b"p", &Target::zero(), 8, 4, 3, &mut rng).is_none());
    assert!(cpu_ga_mine(b"p", &Target::max(), 8, 4, 0, &mut rng).is_none());
}

#[test]
fn a_round_replaces_the_whole_population() {
    let mut rng = RandomSource::seeded(26);
    let start = Population::random(8, 4, &mut rng);
    let before = start.vectors.clone();
    let mut search = GeneticSearch::new(start, 2);
    match search.step(b"h", &Target::zero(), &mut rng) {
        Round::Evolved(best) => {
            let fitness: Vec<Fitness> =
                before.iter().map(|v| evaluate(b"h", v, &Target::zero()).fitness).collect();
            assert_eq!(best, best_fitness(&fitness));
        }
        _ => panic!("nothing meets the target zero here"),
    }
    assert_eq!(search.population.vectors.len(), 8);
    assert!(search.population.vectors.iter().all(|v| v.len() == 4));
    assert_eq!((search.generation, search.evaluations), (1, 8));
    assert!(matches!(search.step(b"h", &Target::zero(), &mut rng), Round::Evolved(_)));
    assert!(matches!(search.step(b"h", &Target::zero(), &mut rng), Round::Exhausted));
    assert_eq!((search.generation, search.evaluations), (2, 16));
    assert!(search.run(b"h", &Target::zero(), &mut rng).is_none());
}

#[test]
fn a_found_round_keeps_the_population() {
    let mut rng = RandomSource::seeded(27);
    let start = Population::random(8, 4, &mut rng);
    let before = start.vectors.clone();
    let mut search = GeneticSearch::new(start, 2);
    match search.step(b"h", &Target::max(), &mut rng) {
        Round::Found(s) => assert_eq!(s.mutation_vector, before[0]),
        _ => panic!("every digest meets the largest target"),
    }
    assert_eq!(search.population.vectors, before);
    assert_eq!((search.generation, search.evaluations), (1, 8));
}

fn evaluations_of(header: &[u8], target: &Target, p: &Population) -> Vec<Evaluation> {
    p.vectors.iter().map(|mv| evaluate(header, mv, target)).collect()
}

#[test]
fn a_round_on_evaluations_made_outside_is_the_same_round() {
    let target = Target::zero();
    let start = || Population::random(8, 4, &mut RandomSource::seeded(31));
    let mut inside = GeneticSearch::new(start(), 3);
    let mut outside = GeneticSearch::new(start(), 3);
    let (mut ra, mut rb) = (RandomSource::seeded(32), RandomSource::seeded(32));
    for _ in 0..3 {
        let evaluations = evaluations_of(b"h", &target, &outside.population);
        let a = inside.step(b"h", &target, &mut ra);
        let b = outside.step_with(b"h", &target, &evaluations, &mut rb);
        match (a, b) {
            (Round::Evolved(x), Round::Evolved(y)) => assert_eq!(x, y),
            _ => panic!("nothing meets the target zero here"),
        }
        assert_eq!(inside.population.vectors, outside.population.vectors);
        assert_eq!(inside.evaluations, outside.evaluations);
    }
    let evaluations = evaluations_of(b"h", &target, &outside.population);
    assert!(matches!(outside.step_with(b"h", &target, &evaluations, &mut rb), Round::Exhausted));
    assert_eq!((outside.generation, outside.evaluations), (3, 24));
}

#[test]
fn a_solution_shown_by_outside_evaluations_is_hashed_again() {
    let p = || population(&[&[1, 1], &[2, 2], &[3, 3]], 2);
    let mut rng = RandomSource::seeded(33);
    let digests: Vec<[u8; 32]> = p().vectors.iter().map(|v| hash(b"h", v)).collect();
    let target = Target { bytes: digests[1] };
    let solving: Vec<usize> = (0..3).filter(|i| digests[*i] <= digests[1]).collect();

    let mut search = GeneticSearch::new(p(), 5);
    let honest = evaluations_of(b"h", &target, &search.population);
    match search.step_with(b"h", &target, &honest, &mut rng) {
        Round::Found(s) => {
            assert_eq!(s.mutation_vector, p().vectors[solving[0]]);
            assert_eq!(s.digest, digests[solving[0]]);
        }
        _ => panic!("an individual meets the target"),
    }

    let mut search = GeneticSearch::new(p(), 5);
    let mut wrong = evaluations_of(b"h", &Target::zero(), &search.population);
    let last = (0..3).find(|i| !solving.contains(i));
    if let Some(last) = last {
        wrong[last].fitness = Fitness { overshoot_bits: 0 };
        wrong[last].digest = [0u8; 32];
    }
    match search.step_with(b"h", &target, &wrong, &mut rng) {
        Round::Found(s) => {
            assert_eq!(s.mutation_vector, p().vectors[solving[0]]);
            assert_eq!(s.digest, hash(b"h", &s.mutation_vector));
            assert!(s.digest <= target.bytes);
        }
        _ => panic!("an individual meets the target"),
    }

    let mut search = GeneticSearch::new(p(), 5);
    let mut lying = evaluations_of(b"h", &Target::zero(), &search.population);
    lying[2].fitness = Fitness { overshoot_bits: 0 };
    assert!(matches!(
        search.step_with(b"h", &Target::zero(), &lying, &mut rng),
        Round::Evolved(_)
    ));
    assert_eq!(search.population.vectors.len(), 3);
}

#[test]
fn under_the_largest_target_the_first_individual_is_returned() {
    let (mv, digest) = cpu_ga_mine(b"h", &Target::max(), 8, 4, 3, &mut RandomSource::seeded(41))
        .expect("every digest meets the largest target");
    let start = Population::random(8, 4, &mut RandomSource::seeded(41));
    assert_eq!(mv, start.vectors[0]);
    assert_eq!(digest, hash(b"h", &mv));
    match survey(b"h", &Target::max(), &start) {
        Survey::Found(s) => assert_eq!(s.mutation_vector, start.vectors[0]),
        Survey::Unsolved(_) => panic!("every digest meets the largest target"),
    }
}

#[test]
fn a_search_returns_the_first_solver_of_the_population_it_reached() {
    let mut bytes = [0xffu8; 32];
    bytes[0] = 0x00;
    let target = Target { bytes };
    let mut rng = RandomSource::seeded(42);
    let mut search = GeneticSearch::new(Population::random(32, 6, &mut rng), 500);
    let mut bred = 0;
    loop {
        let before = search.population.vectors.clone();
        let solving = before.iter().position(|mv| hash(b"h", mv) <= bytes);
        match search.step(b"h", &target, &mut rng) {
            Round::Found(s) => {
                assert_eq!(Some(&s.mutation_vector), solving.map(|i| &before[i]));
                break;
            }
            Round::Evolved(_) => {
                assert_eq!(solving, None);
                bred += 1;
            }
            Round::Exhausted => panic!("about one candidate in 256 qualifies"),
        }
    }
    assert!(bred >= 1);
    assert_eq!(search.generation, bred + 1);
}

#[test]
fn a_child_differs_from_the_crossover_in_at_most_one_byte() {
    let mut rng = RandomSource::seeded(43);
    let p = Population::random(16, 12, &mut rng);
    let fitness = fitness_values(&evaluate_population(b"h", &Target::zero(), &p));
    for _ in 0..2000 {
        let draw = draw_child(&mut rng, 16, 12);
        let child = breed_child(&p, &fitness, &draw);
        let first = &p.vectors[tournament_select(&fitness, draw.first.0, draw.first.1)];
        let second = &p.vectors[tournament_select(&fitness, draw.second.0, draw.second.1)];
        let crossed = crossover(first, second, draw.cut);
        let differing: Vec<usize> = (0..12).filter(|j| child[*j] != crossed[*j]).collect();
        assert!(differing.len() <= 1);
        if let Some(at) = differing.first() {
            assert_eq!(draw.mutation.map(|m| m.0), Some(*at));
        }
    }
}
