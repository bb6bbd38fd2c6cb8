//! End-to-end scenarios driving a whole population.

use radiate::genocide::Genocide;
use radiate::genome::Genome;
use radiate::population::{Config, Population};
use radiate::problem::Problem;

/// A genome clustered by an integer label.
#[derive(Clone, Debug, PartialEq)]
struct ClusterGene {
    cluster: u32,
    val: u32,
}

#[derive(Clone, Default)]
struct TestEnv {
    crossings: u32,
    same_niche: u32,
}

impl radiate::environment::Envionment for TestEnv {}

impl Genome<ClusterGene, TestEnv> for ClusterGene {
    fn crossover(
        one: &ClusterGene,
        two: &ClusterGene,
        env: &mut TestEnv,
        _crossover_rate: u32,
    ) -> Option<ClusterGene> {
        if one.cluster != two.cluster {
            env.crossings += 1;
        } else {
            env.same_niche += 1;
        }
        Some(ClusterGene { cluster: one.cluster, val: one.val })
    }

    fn distance(one: &ClusterGene, two: &ClusterGene, _env: &mut TestEnv) -> u32 {
        if one.cluster > two.cluster {
            (one.cluster - two.cluster) * 10
        } else {
            (two.cluster - one.cluster) * 10
        }
    }

    fn base(_env: &mut TestEnv) -> ClusterGene {
        ClusterGene { cluster: 0, val: 0 }
    }
}

/// Fitness equal to the genome's value.
struct ValProblem;

impl Problem<ClusterGene> for ValProblem {
    fn empty() -> Self {
        ValProblem
    }

    fn solve(&self, member: &mut ClusterGene) -> u32 {
        member.val
    }
}

/// The same fitness for every genome.
struct ConstantProblem;

impl Problem<ClusterGene> for ConstantProblem {
    fn empty() -> Self {
        ConstantProblem
    }

    fn solve(&self, _member: &mut ClusterGene) -> u32 {
        1000
    }
}

/// A genome at distance one (ten tenths) from everything else.
#[derive(Clone, Debug, PartialEq)]
struct FarGene(u32);

#[derive(Clone, Default)]
struct FarEnv;

impl radiate::environment::Envionment for FarEnv {}

impl Genome<FarGene, FarEnv> for FarGene {
    fn crossover(one: &FarGene, _two: &FarGene, _env: &mut FarEnv, _r: u32) -> Option<FarGene> {
        Some(one.clone())
    }

    fn distance(_one: &FarGene, _two: &FarGene, _env: &mut FarEnv) -> u32 {
        10
    }

    fn base(_env: &mut FarEnv) -> FarGene {
        FarGene(0)
    }
}

struct FarProblem;

impl Problem<FarGene> for FarProblem {
    fn empty() -> Self {
        FarProblem
    }

    fn solve(&self, _member: &mut FarGene) -> u32 {
        1000
    }
}

#[test]
fn train_preserves_the_population_size() {
    let mut pop: Population<ClusterGene, TestEnv, ValProblem> = Population::new()
        .size(20)
        .configure(Config { inbreed_rate: 0, crossover_rate: 500, distance: 5, species_target: 0 })
        .populate_clone(ClusterGene { cluster: 0, val: 3 });
    for _ in 0..5 {
        let top = pop.train();
        assert!(top.is_some());
        assert!(pop.member(19).is_some());
        assert!(pop.member(20).is_none());
    }
}

#[test]
fn populate_clone_copies_the_genome_with_zero_fitness() {
    let seed = ClusterGene { cluster: 2, val: 7 };
    let pop: Population<ClusterGene, TestEnv, ValProblem> =
        Population::new().size(10).populate_clone(seed.clone());
    for i in 0..10 {
        let c = pop.member(i).unwrap();
        assert_eq!(c.member, seed);
        assert_eq!(c.fitness_score, 0);
        assert!(c.species.is_none());
    }
    assert!(pop.member(10).is_none());
}

#[test]
fn populate_vec_keeps_order_and_zero_fitness() {
    let vals = vec![
        ClusterGene { cluster: 0, val: 1 },
        ClusterGene { cluster: 1, val: 2 },
        ClusterGene { cluster: 2, val: 3 },
    ];
    let pop: Population<ClusterGene, TestEnv, ValProblem> =
        Population::new().size(3).populate_vec(vals.clone());
    for (i, v) in vals.iter().enumerate() {
        let c = pop.member(i).unwrap();
        assert_eq!(&c.member, v);
        assert_eq!(c.fitness_score, 0);
    }
}

#[test]
fn populate_base_builds_base_genomes() {
    let pop: Population<ClusterGene, TestEnv, ValProblem> =
        Population::new().size(4).populate_base();
    for i in 0..4 {
        let c = pop.member(i).unwrap();
        assert_eq!(c.member, ClusterGene { cluster: 0, val: 0 });
        assert_eq!(c.fitness_score, 0);
    }
}

#[test]
fn constant_fitness_keeps_the_species_count() {
    // every genome identical: the first speciation builds one niche,
    // and with the disabled (zero-target, no-op) monitor it stays
    let mut pop: Population<ClusterGene, TestEnv, ConstantProblem> = Population::new()
        .size(30)
        .configure(Config { inbreed_rate: 0, crossover_rate: 0, distance: 30, species_target: 0 })
        .populate_clone(ClusterGene { cluster: 0, val: 5 });
    pop.train().unwrap();
    let first = pop.species_count();
    assert_eq!(first, 1);
    for _ in 0..9 {
        pop.train().unwrap();
        assert_eq!(pop.species_count(), first);
    }
}

#[test]
fn dynamic_distance_tightens_toward_the_target_and_keeps_the_floor() {
    // pairwise distance is always 1.0; the threshold starts at 3.0 and
    // with fewer niches than the target it drops a tenth per cycle,
    // never below the floor of a tenth
    let mut pop: Population<FarGene, FarEnv, FarProblem> = Population::new()
        .size(12)
        .dynamic_distance(true)
        .configure(Config { inbreed_rate: 0, crossover_rate: 0, distance: 30, species_target: 5 })
        .populate_clone(FarGene(1));
    let mut last = pop.current_distance();
    assert_eq!(last, 30);
    for _ in 0..25 {
        pop.train().unwrap();
        let d = pop.current_distance();
        assert!(d >= 1, "distance fell under the floor");
        assert!(d <= last + 1, "distance moved by more than one step");
        last = d;
    }
    // by now the threshold has settled around the common distance
    assert!(last <= 11);
}

#[test]
fn genocide_fires_on_the_expected_generation() {
    // the constant fitness differs from the monitor's initial top, so
    // the first cycle resets the counter; it then reads 1 and 2, and on
    // the fourth cycle the increment reaches the target of three: the
    // cleaners fire and the counter resets in that same step
    let mut pop: Population<ClusterGene, TestEnv, ConstantProblem> = Population::new()
        .size(16)
        .configure(Config { inbreed_rate: 0, crossover_rate: 0, distance: 30, species_target: 0 })
        .stagnation(3, vec![Genocide::KillWorst(500)])
        .populate_clone(ClusterGene { cluster: 0, val: 0 });
    let expected = [0usize, 1, 2, 0, 1, 2, 0, 1];
    for (g, want) in expected.iter().enumerate() {
        pop.train().unwrap();
        assert_eq!(pop.stagnation_count(), *want, "wrong counter after generation {}", g + 1);
        // the population is refilled to size either way
        assert!(pop.member(15).is_some());
        assert!(pop.member(16).is_none());
    }
}

#[test]
fn show_progress_reports_when_debug_is_on() {
    let mut pop: Population<ClusterGene, TestEnv, ConstantProblem> = Population::new()
        .size(10)
        .debug(true)
        .configure(Config { inbreed_rate: 0, crossover_rate: 0, distance: 30, species_target: 0 })
        .populate_clone(ClusterGene { cluster: 0, val: 1 });
    pop.train().unwrap();
    let lines = pop.show_progress();
    assert_eq!(lines.len(), pop.species_count());
    assert!(lines.len() >= 1);
    let silent: Population<ClusterGene, TestEnv, ConstantProblem> = Population::new().size(10);
    assert!(silent.show_progress().is_empty());
}

#[test]
fn zero_inbreed_rate_never_crosses_niches() {
    let vals: Vec<ClusterGene> = (0..20)
        .map(|i| ClusterGene { cluster: i % 2, val: 10 })
        .collect();
    let mut pop: Population<ClusterGene, TestEnv, ConstantProblem> = Population::new()
        .size(20)
        .configure(Config { inbreed_rate: 0, crossover_rate: 0, distance: 5, species_target: 0 })
        .populate_vec(vals);
    let (_top, env) = pop.run(|_g, _fit, iter| iter >= 5).unwrap();
    assert!(env.same_niche > 0, "no crossover happened at all");
    assert_eq!(env.crossings, 0, "a pair crossed niches with inbreed rate zero");
}

#[test]
fn full_inbreed_rate_always_crosses_niches() {
    let vals: Vec<ClusterGene> = (0..20)
        .map(|i| ClusterGene { cluster: i % 2, val: 10 })
        .collect();
    let mut pop: Population<ClusterGene, TestEnv, ConstantProblem> = Population::new()
        .size(20)
        .configure(Config { inbreed_rate: 1000, crossover_rate: 0, distance: 5, species_target: 0 })
        .populate_vec(vals);
    let (_top, env) = pop.run(|_g, _fit, iter| iter >= 5).unwrap();
    assert!(env.crossings > 0, "no crossover happened at all");
    assert_eq!(env.same_niche, 0, "a pair stayed in one niche with inbreed rate one");
}

#[test]
fn run_surfaces_an_empty_population_as_an_error() {
    let mut pop: Population<ClusterGene, TestEnv, ValProblem> = Population::new().size(0);
    let r = pop.run(|_g, _f, _i| true);
    assert!(r.is_err());
}

#[test]
fn best_score_is_reported_before_breeding() {
    let vals = vec![
        ClusterGene { cluster: 0, val: 3 },
        ClusterGene { cluster: 0, val: 9 },
        ClusterGene { cluster: 0, val: 6 },
    ];
    let mut pop: Population<ClusterGene, TestEnv, ValProblem> = Population::new()
        .size(3)
        .configure(Config { inbreed_rate: 0, crossover_rate: 0, distance: 30, species_target: 0 })
        .populate_vec(vals);
    let (score, genome) = pop.train().unwrap();
    assert_eq!(score, 9);
    assert_eq!(genome.val, 9);
}

#[test]
fn elitism_never_loses_the_top_fitness() {
    // fitness is the genome's value and crossover clones the first
    // parent, so under fittest-survival the top value can never drop
    let vals: Vec<ClusterGene> = (0..10).map(|v| ClusterGene { cluster: 0, val: v }).collect();
    let mut pop: Population<ClusterGene, TestEnv, ValProblem> = Population::new()
        .size(10)
        .configure(Config { inbreed_rate: 0, crossover_rate: 0, distance: 30, species_target: 0 })
        .populate_vec(vals);
    let mut best = 0;
    for _ in 0..8 {
        let (score, _) = pop.train().unwrap();
        assert!(score >= best, "top fitness dropped under elitism");
        best = score;
    }
}

#[test]
fn training_never_writes_to_the_problem() {
    // the problem is handed to every evaluation by shared reference;
    // a snapshot taken before training still matches afterwards
    struct DataProblem {
        data: std::sync::Arc<Vec<u32>>,
    }
    impl Problem<ClusterGene> for DataProblem {
        fn empty() -> Self {
            DataProblem { data: std::sync::Arc::new(Vec::new()) }
        }

        fn solve(&self, member: &mut ClusterGene) -> u32 {
            self.data[(member.val as usize) % self.data.len()]
        }
    }
    let data = std::sync::Arc::new(vec![4u32, 8, 15, 16, 23, 42]);
    let snapshot: Vec<u32> = data.as_ref().clone();
    let mut pop: Population<ClusterGene, TestEnv, DataProblem> = Population::new()
        .size(12)
        .configure(Config { inbreed_rate: 0, crossover_rate: 0, distance: 30, species_target: 0 })
        .impose(DataProblem { data: data.clone() })
        .populate_clone(ClusterGene { cluster: 0, val: 3 });
    for _ in 0..4 {
        pop.train().unwrap();
    }
    assert_eq!(*data, snapshot, "training wrote to the shared problem");
}
