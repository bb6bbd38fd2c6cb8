//! Unit tests for the engine's building blocks.

use radiate::apportion::apportion;
use radiate::generation::{Container, Generation, Niche};
use radiate::genocide::Genocide;
use radiate::genome::Genome;
use radiate::population::{Config, Stagnant};
use radiate::rng::Rng;

/// A genome clustered by an integer label: members of the same cluster
/// are at distance zero, members of different clusters far apart.
#[derive(Clone, Debug, PartialEq)]
struct ClusterGene {
    cluster: u32,
    val: u32,
}

#[derive(Default)]
struct TestEnv {
    crossings: u32,
    same_niche: u32,
}

impl radiate::environment::Envionment for TestEnv {}

impl Genome<ClusterGene, TestEnv> for ClusterGene {
    fn crossover(
        one: &ClusterGene,
        two: &ClusterGene,
        env: &mut TestEnv,
        _crossover_rate: u32,
    ) -> Option<ClusterGene> {
        if one.cluster != two.cluster {
            env.crossings += 1;
        } else {
            env.same_niche += 1;
        }
        Some(ClusterGene { cluster: one.cluster, val: one.val })
    }

    fn distance(one: &ClusterGene, two: &ClusterGene, _env: &mut TestEnv) -> u32 {
        if one.cluster > two.cluster {
            (one.cluster - two.cluster) * 10
        } else {
            (two.cluster - one.cluster) * 10
        }
    }

    fn base(_env: &mut TestEnv) -> ClusterGene {
        ClusterGene { cluster: 0, val: 0 }
    }
}

fn gen_of(vals: Vec<(u32, u32)>) -> Generation<ClusterGene> {
    let mut g: Generation<ClusterGene> = Generation::new();
    for (cluster, val) in vals {
        let mut c = Container::from_member(ClusterGene { cluster, val });
        c.fitness_score = val;
        g.members.push(c);
    }
    g
}

#[test]
fn rng_below_stays_in_range() {
    let mut rng = Rng::new(42);
    for _ in 0..1000 {
        assert!(rng.below(7) < 7);
    }
    assert!(!rng.chance(0));
    assert!(rng.chance(1000));
}

#[test]
fn config_new_is_zeroed() {
    let c = Config::new();
    assert_eq!(c.inbreed_rate, 0);
    assert_eq!(c.crossover_rate, 0);
    assert_eq!(c.distance, 0);
    assert_eq!(c.species_target, 0);
}

#[test]
fn stagnant_new_starts_clean() {
    let s = Stagnant::new(5, vec![Genocide::KillWorst(500)]);
    assert_eq!(s.target_stagnation, 5);
    assert_eq!(s.current_stagnation, 0);
    assert_eq!(s.previous_top_score, 0);
    assert_eq!(s.cleaners.len(), 1);
}

#[test]
fn container_starts_clean() {
    let c = Container::from_member(ClusterGene { cluster: 3, val: 9 });
    assert_eq!(c.fitness_score, 0);
    assert!(c.species.is_none());
    assert_eq!(c.member.cluster, 3);
}

#[test]
fn niche_accepts_under_threshold() {
    let mut env = TestEnv::default();
    let niche = Niche::new(ClusterGene { cluster: 0, val: 0 });
    assert_eq!(niche.age, 0);
    assert_eq!(niche.stagnation_age, 0);
    // same cluster: distance 0 < 5
    assert!(niche.accepts(&ClusterGene { cluster: 0, val: 7 }, &mut env, 5));
    // next cluster: distance 10, not below 5
    assert!(!niche.accepts(&ClusterGene { cluster: 1, val: 7 }, &mut env, 5));
    // threshold is strict
    assert!(!niche.accepts(&ClusterGene { cluster: 1, val: 7 }, &mut env, 10));
    assert!(niche.accepts(&ClusterGene { cluster: 1, val: 7 }, &mut env, 11));
}

#[test]
fn adjusted_fitness_divides_by_member_count() {
    let mut niche = Niche::new(ClusterGene { cluster: 0, val: 0 });
    niche.members.push(0);
    niche.members.push(1);
    niche.members.push(2);
    niche.members.push(3);
    // 10 * 1000 / 4
    assert_eq!(niche.adjusted_fitness(10), 2500);
}

#[test]
fn apportion_sums_to_size() {
    let q = apportion(&vec![1, 1], 5);
    assert_eq!(q.iter().sum::<usize>(), 5);
    let q = apportion(&vec![3, 1], 4);
    assert_eq!(q, vec![3, 1]);
    let q = apportion(&vec![5, 3, 2], 10);
    assert_eq!(q, vec![5, 3, 2]);
    // a zero total falls back to a uniform split
    let q = apportion(&vec![0, 0], 5);
    assert_eq!(q, vec![3, 2]);
    let q = apportion(&vec![1], 7);
    assert_eq!(q, vec![7]);
}

#[test]
fn apportion_largest_remainder_exact() {
    // shares: 7*3/6 = 3.5, 7*2/6 ~ 2.33, 7*1/6 ~ 1.17
    // bases 3,2,1 leave one slot for the largest remainder (0.5)
    let q = apportion(&vec![3, 2, 1], 7);
    assert_eq!(q, vec![4, 2, 1]);
}

#[test]
fn best_member_prefers_lower_index_on_ties() {
    let g = gen_of(vec![(0, 5), (0, 9), (0, 9), (0, 1)]);
    let (score, idx) = g.best_member().unwrap();
    assert_eq!(score, 9);
    assert_eq!(idx, 1);
    let empty: Generation<ClusterGene> = Generation::new();
    assert!(empty.best_member().is_none());
}

#[test]
fn speciate_assigns_every_member() {
    let mut g = gen_of(vec![(0, 1), (0, 2), (1, 3), (1, 4), (2, 5)]);
    let mut env = TestEnv::default();
    g.speciate(5, &mut env);
    assert_eq!(g.species.len(), 3);
    for c in g.members.iter() {
        let id = c.species.expect("member left unassigned");
        assert!(id < g.species.len());
    }
    for (i, n) in g.species.iter().enumerate() {
        assert!(n.members.len() >= 1);
        for &m in n.members.iter() {
            assert_eq!(g.members[m].species, Some(i));
        }
    }
}

#[test]
fn speciate_drops_empty_niches_and_updates_stats() {
    let mut g = gen_of(vec![(0, 4), (0, 2)]);
    let mut env = TestEnv::default();
    g.speciate(5, &mut env);
    assert_eq!(g.species.len(), 1);
    assert_eq!(g.species[0].best_score, 4);
    assert_eq!(g.species[0].age, 1);
    assert_eq!(g.species[0].stagnation_age, 0);
    // same scores again: stagnation age grows
    g.speciate(5, &mut env);
    assert_eq!(g.species.len(), 1);
    assert_eq!(g.species[0].age, 2);
    assert_eq!(g.species[0].stagnation_age, 1);
}

#[test]
fn kill_worst_removes_bottom_half() {
    let mut g = gen_of((0..10).map(|i| (0, i)).collect());
    let mut rng = Rng::new(7);
    Genocide::KillWorst(500).kill(&mut g, &mut rng);
    assert_eq!(g.members.len(), 5);
    for c in g.members.iter() {
        assert!(c.fitness_score >= 5, "a top-half member was removed");
        assert!(c.species.is_none());
    }
}

#[test]
fn kill_random_removes_the_fraction() {
    let mut g = gen_of((0..10).map(|i| (0, i)).collect());
    let mut rng = Rng::new(7);
    Genocide::KillRandom(300).kill(&mut g, &mut rng);
    assert_eq!(g.members.len(), 7);
}

#[test]
fn kill_stale_species_drops_stale_niches() {
    let mut g = gen_of(vec![(0, 1), (1, 2)]);
    let mut env = TestEnv::default();
    g.speciate(5, &mut env);
    assert_eq!(g.species.len(), 2);
    g.species[0].stagnation_age = 4;
    g.species[1].stagnation_age = 1;
    let mut rng = Rng::new(7);
    Genocide::KillStaleSpecies(3).kill(&mut g, &mut rng);
    assert_eq!(g.species.len(), 1);
    assert!(g.species[0].stagnation_age < 3);
    // the stale niche's member went with it
    assert_eq!(g.members.len(), 1);
}

#[test]
fn kill_oldest_species_drops_the_n_oldest() {
    let mut g = gen_of(vec![(0, 1), (1, 2), (2, 3)]);
    let mut env = TestEnv::default();
    g.speciate(5, &mut env);
    assert_eq!(g.species.len(), 3);
    g.species[0].age = 9;
    g.species[1].age = 2;
    g.species[2].age = 7;
    let mut rng = Rng::new(7);
    Genocide::KillOldestSpecies(2).kill(&mut g, &mut rng);
    assert_eq!(g.species.len(), 1);
    assert_eq!(g.members.len(), 1);
    assert_eq!(g.members[0].member.cluster, 1);
}

#[test]
fn next_generation_has_exactly_the_requested_size() {
    let mut g = gen_of(vec![(0, 10), (0, 4), (1, 8), (1, 2), (2, 6)]);
    let mut env = TestEnv::default();
    let mut rng = Rng::new(11);
    g.speciate(5, &mut env);
    let cfg = Config { inbreed_rate: 0, crossover_rate: 500, distance: 5, species_target: 0 };
    let next = g.create_next_generation(12, &cfg, &mut env, &mut rng).0.unwrap();
    assert_eq!(next.members.len(), 12);
    // niches carried over as empty shells
    assert_eq!(next.species.len(), 3);
    for n in next.species.iter() {
        assert!(n.members.is_empty());
    }
    // every niche got at least one slot here, so each cluster's best
    // member is carried over unchanged
    for best in [(0, 10), (1, 8), (2, 6)] {
        assert!(
            next.members.iter().any(|c| c.member.cluster == best.0 && c.member.val == best.1),
            "cluster {} lost its best member",
            best.0
        );
    }
}

#[test]
fn next_generation_carries_the_best_member() {
    let mut g = gen_of(vec![(0, 10), (0, 4), (1, 8), (1, 2), (2, 6)]);
    let mut env = TestEnv::default();
    let mut rng = Rng::new(11);
    g.speciate(5, &mut env);
    let best = g.members[g.best_member().unwrap().1].member.clone();
    let cfg = Config { inbreed_rate: 0, crossover_rate: 500, distance: 5, species_target: 0 };
    let next = g.create_next_generation(6, &cfg, &mut env, &mut rng).0.unwrap();
    assert!(
        next.members.iter().any(|c| c.member == best && c.fitness_score == 10),
        "the fittest genome was not carried into the next generation"
    );
}

#[test]
fn display_info_mentions_the_numbers() {
    let mut niche = Niche::new(ClusterGene { cluster: 0, val: 0 });
    niche.best_score = 42;
    niche.age = 3;
    niche.members.push(0);
    let text = niche.display_info();
    assert!(text.contains("42"));
    assert!(text.contains("3"));
    assert!(text.contains("1"));
}

#[test]
fn monitor_fires_in_the_step_the_count_reaches_target() {
    let mut s = Stagnant::new(2, vec![]);
    // a change resets; then two repeats: the second brings the count to
    // the target, fires, and resets in the same call
    assert!(!s.step(7));
    assert_eq!(s.current_stagnation, 0);
    assert!(!s.step(7));
    assert_eq!(s.current_stagnation, 1);
    assert!(s.step(7));
    assert_eq!(s.current_stagnation, 0);
    // a disabled monitor (target zero) never fires and never counts
    let mut d = Stagnant::new(0, vec![]);
    assert!(!d.step(3));
    assert!(!d.step(3));
    assert_eq!(d.current_stagnation, 0);
}

#[test]
fn distinct_tops_keep_stagnation_at_zero() {
    let mut s = Stagnant::new(4, vec![]);
    assert!(!s.step(5));
    assert_eq!(s.current_stagnation, 0);
    assert!(!s.step(9));
    assert_eq!(s.current_stagnation, 0);
    assert!(!s.step(2));
    assert_eq!(s.current_stagnation, 0);
    // a repeat finally counts
    assert!(!s.step(2));
    assert_eq!(s.current_stagnation, 1);
}
