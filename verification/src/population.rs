//! The population orchestrator: configuration, the stagnation monitor,
//! and the outer training loop that drives a generation through
//! evaluation, speciation, stagnation management and reproduction.

use vstd::prelude::*;

use crate::environment::Envionment;
use crate::generation::{Container, Generation};
use crate::genocide::Genocide;
use crate::genome::Genome;
use crate::problem::Problem;
use crate::rng::Rng;
use crate::survival::{ParentalCriteria, SurvivalCriteria};

verus! {

/// Speciation parameters.
///
/// `inbreed_rate` and `crossover_rate` are probabilities in thousandths
/// (`0..=1000`); `distance` is the speciation threshold in tenths, so
/// the self-tuning step of one tenth is exact; `species_target` is the
/// niche count aimed for when dynamic distance is enabled.
#[derive(Clone, Copy, PartialEq, Eq, Structural, Debug)]
pub struct Config {
    pub inbreed_rate: u32,
    pub crossover_rate: u32,
    pub distance: u32,
    pub species_target: usize,
}

impl Config {
    /// All-zero configuration; the caller is expected to overwrite it.
    pub fn new() -> (r: Config)
        ensures
            r.inbreed_rate == 0,
            r.crossover_rate == 0,
            r.distance == 0,
            r.species_target == 0,
    {
        Config { inbreed_rate: 0, crossover_rate: 0, distance: 0, species_target: 0 }
    }
}

/// The stagnation monitor: counts generations whose top score repeats
/// exactly, and fires the configured genocides when the count reaches
/// the target.
pub struct Stagnant {
    pub target_stagnation: usize,
    pub current_stagnation: usize,
    pub previous_top_score: u32,
    pub cleaners: Vec<Genocide>,
}

impl Stagnant {
    /// The counter sits strictly under its target; a zero target
    /// disables the monitor entirely and keeps the counter at zero.
    pub open spec fn wf(self) -> bool {
        if self.target_stagnation == 0 {
            self.current_stagnation == 0
        } else {
            self.current_stagnation < self.target_stagnation
        }
    }

    /// The counter after comparing the observed top to the previous
    /// one: an exact repeat counts, any change resets.
    pub open spec fn spec_count_next(self, top: u32) -> nat {
        if top == self.previous_top_score {
            (self.current_stagnation + 1) as nat
        } else {
            0
        }
    }

    /// Does observing `top` fire the cleaners?  The count is updated
    /// first; the monitor fires in the same step the count reaches the
    /// target.  A zero target never fires.
    pub open spec fn spec_fires(self, top: u32) -> bool {
        self.target_stagnation >= 1 && self.spec_count_next(top) == self.target_stagnation
    }

    /// One observation of the top score: compare to the previous top
    /// and count or reset; when the count reaches the target, fire and
    /// reset to zero in the same step.  The previous top is always
    /// replaced by the observed score.
    pub open spec fn spec_step(self, top: u32) -> Stagnant {
        Stagnant {
            current_stagnation: if self.target_stagnation == 0 {
                0
            } else if self.spec_fires(top) {
                0
            } else {
                self.spec_count_next(top) as usize
            },
            previous_top_score: top,
            ..self
        }
    }

    /// The monitor after `n` observations of the same score.
    pub open spec fn spec_run(self, top: u32, n: nat) -> Stagnant
        decreases n,
    {
        if n == 0 {
            self
        } else {
            self.spec_run(top, (n - 1) as nat).spec_step(top)
        }
    }

    pub fn new(target_stagnation: usize, cleaners: Vec<Genocide>) -> (r: Stagnant)
        ensures
            r.target_stagnation == target_stagnation,
            r.current_stagnation == 0,
            r.previous_top_score == 0,
            r.cleaners == cleaners,
            r.wf(),
    {
        Stagnant { target_stagnation, current_stagnation: 0, previous_top_score: 0, cleaners }
    }

    /// Observe the current top score.  Returns whether the cleaners
    /// run on this generation, in the same step the count reaches the
    /// target.
    pub fn step(&mut self, top: u32) -> (fired: bool)
        requires
            old(self).wf(),
        ensures
            fired == old(self).spec_fires(top),
            *final(self) == old(self).spec_step(top),
            final(self).wf(),
    {
        let fired: bool;
        if self.target_stagnation == 0 {
            fired = false;
            self.current_stagnation = 0;
        } else {
            let next: usize = if top == self.previous_top_score {
                self.current_stagnation + 1
            } else {
                0
            };
            if next == self.target_stagnation {
                fired = true;
                self.current_stagnation = 0;
            } else {
                fired = false;
                self.current_stagnation = next;
            }
        }
        self.previous_top_score = top;
        fired
    }

    /// Observations compose: `m` steps are one step, then `m - 1` more.
    pub proof fn lemma_spec_run_shift(self, top: u32, m: nat)
        requires
            m >= 1,
        ensures
            self.spec_run(top, m) == self.spec_step(top).spec_run(top, (m - 1) as nat),
        decreases m,
    {
        if m > 1 {
            self.lemma_spec_run_shift(top, (m - 1) as nat);
            assert(self.spec_run(top, m) == self.spec_run(top, (m - 1) as nat).spec_step(top));
            assert(self.spec_step(top).spec_run(top, (m - 1) as nat)
                == self.spec_step(top).spec_run(top, (m - 2) as nat).spec_step(top));
        } else {
            assert(self.spec_run(top, 1) == self.spec_run(top, 0).spec_step(top));
            assert(self.spec_step(top).spec_run(top, 0) == self.spec_step(top));
        }
    }

    /// Law: while the top score keeps changing, the stagnation count
    /// stays at zero and the monitor never fires.  Three generations
    /// with pairwise-distinct tops never move the counter off zero.
    pub proof fn lemma_distinct_tops_keep_zero(self, t1: u32, t2: u32, t3: u32)
        requires
            t1 != self.previous_top_score,
            t2 != t1,
            t3 != t2,
        ensures
            !self.spec_fires(t1),
            self.spec_step(t1).current_stagnation == 0,
            !self.spec_step(t1).spec_fires(t2),
            self.spec_step(t1).spec_step(t2).current_stagnation == 0,
            !self.spec_step(t1).spec_step(t2).spec_fires(t3),
            self.spec_step(t1).spec_step(t2).spec_step(t3).current_stagnation == 0,
    {
    }

    /// After `n` repeats of the score it already holds, a monitor that
    /// started at zero counts exactly `n` and has not fired, for every
    /// `n` short of the target.
    pub proof fn lemma_constant_top_counts(self, top: u32, n: nat)
        requires
            self.current_stagnation == 0,
            self.previous_top_score == top,
            self.target_stagnation >= 1,
            n < self.target_stagnation,
        ensures
            self.spec_run(top, n).current_stagnation == n,
            self.spec_run(top, n).previous_top_score == top,
            self.spec_run(top, n).target_stagnation == self.target_stagnation,
            forall|m: nat| m <= n ==> (#[trigger] self.spec_run(top, m)).current_stagnation == m
                && self.spec_run(top, m).previous_top_score == top,
            forall|m: nat| m < n ==> !(#[trigger] self.spec_run(top, m)).spec_fires(top),
        decreases n,
    {
        if n > 0 {
            self.lemma_constant_top_counts(top, (n - 1) as nat);
            assert forall|m: nat| m <= n implies (#[trigger] self.spec_run(top, m))
                .current_stagnation == m && self.spec_run(top, m).previous_top_score == top by {
                if m < n {
                } else {
                    assert(m == n);
                    assert(self.spec_run(top, n)
                        == self.spec_run(top, (n - 1) as nat).spec_step(top));
                }
            }
            assert forall|m: nat| m < n implies !(#[trigger] self.spec_run(top, m)).spec_fires(
                top,
            ) by {
                if m < n - 1 {
                } else {
                    assert(m == n - 1);
                }
            }
        }
    }

    /// Law: against a constant top score that differs from the score
    /// the monitor last remembered, a monitor with target `k` fires for
    /// the first time on observation `k + 1` exactly — the step whose
    /// increment brings the count to `k` — and the count resets to zero
    /// in that same step.
    pub proof fn lemma_genocide_trigger(self, top: u32)
        requires
            self.current_stagnation == 0,
            self.previous_top_score != top,
            self.target_stagnation >= 1,
        ensures
            forall|m: nat| m < self.target_stagnation
                ==> !(#[trigger] self.spec_run(top, m)).spec_fires(top),
            forall|m: nat| 1 <= m <= self.target_stagnation
                ==> (#[trigger] self.spec_run(top, m)).current_stagnation == m - 1,
            self.spec_run(top, self.target_stagnation as nat).spec_fires(top),
            self.spec_run(top, (self.target_stagnation + 1) as nat).current_stagnation == 0,
    {
        let k = self.target_stagnation as nat;
        let s1 = self.spec_step(top);
        s1.lemma_constant_top_counts(top, (k - 1) as nat);
        assert forall|m: nat| 1 <= m <= k implies (#[trigger] self.spec_run(top, m))
            == s1.spec_run(top, (m - 1) as nat) by {
            self.lemma_spec_run_shift(top, m);
        }
        assert forall|m: nat| 1 <= m <= k implies (#[trigger] self.spec_run(top, m))
            .current_stagnation == m - 1 by {
            assert(self.spec_run(top, m) == s1.spec_run(top, (m - 1) as nat));
        }
        assert forall|m: nat| m < k implies !(#[trigger] self.spec_run(top, m)).spec_fires(top)
            by {
            if m == 0 {
            } else {
                assert(self.spec_run(top, m) == s1.spec_run(top, (m - 1) as nat));
                assert(self.spec_run(top, m).current_stagnation == m - 1);
                assert(self.spec_run(top, m).previous_top_score == top);
            }
        }
        assert(self.spec_run(top, k).current_stagnation == k - 1);
        assert(self.spec_run(top, k).previous_top_score == top);
        assert(self.spec_run(top, (k + 1) as nat)
            == self.spec_run(top, k).spec_step(top));
    }
}

/// The population: the current generation, its configuration, the
/// problem being solved, the shared environment, and the stagnation
/// monitor.  Built with chained setters, then driven by `train` or
/// `run`.
pub struct Population<T, E, P> {
    size: i32,
    dynamic_distance: bool,
    debug_progress: bool,
    config: Config,
    curr_gen: Generation<T>,
    stagnation: Stagnant,
    solve: P,
    environment: E,
    survivor_criteria: SurvivalCriteria,
    parental_criteria: ParentalCriteria,
    rng: Rng,
}

impl<T, E, P> Population<T, E, P> where
    T: Genome<T, E> + Clone + Send,
    E: Envionment + Default,
    P: Problem<T> + Sync,
 {
    /// The machine bounds every training step relies on: the monitor
    /// counter has not run past its target, and the population and
    /// member counts leave room for the quota arithmetic.
    pub closed spec fn wf(self) -> bool {
        &&& self.stagnation.wf()
        &&& self.size <= 0x4000_0000
        &&& self.curr_gen.members@.len() <= 0x4000_0000
    }

    /// Default population: one hundred members, static distance, no
    /// debug output, zeroed configuration, empty generation, disabled
    /// stagnation, empty problem, default environment, fittest
    /// survival and biased-random parents.
    pub fn new() -> (r: Self)
        ensures
            r.wf(),
            r.spec_size() == 100,
            !r.is_dynamic(),
            r.config() == (Config { inbreed_rate: 0, crossover_rate: 0, distance: 0, species_target: 0 }),
            r.curr_gen().members@.len() == 0,
            r.curr_gen().species@.len() == 0,
            r.curr_gen().survival_criteria == SurvivalCriteria::Fittest,
            r.curr_gen().parental_criteria == ParentalCriteria::BiasedRandom,
            r.monitor().target_stagnation == 0,
            r.monitor().current_stagnation == 0,
            r.monitor().previous_top_score == 0,
            r.monitor().cleaners@.len() == 0,
            !r.debug_requested(),
            r.survivor_policy() == SurvivalCriteria::Fittest,
            r.parental_policy() == ParentalCriteria::BiasedRandom,
    {
        Population {
            size: 100,
            dynamic_distance: false,
            debug_progress: false,
            config: Config::new(),
            curr_gen: Generation::new(),
            stagnation: Stagnant::new(0, Vec::new()),
            solve: P::empty(),
            environment: E::default(),
            survivor_criteria: SurvivalCriteria::Fittest,
            parental_criteria: ParentalCriteria::BiasedRandom,
            rng: Rng::new(0x5eed_1234_abcd_ef01),
        }
    }

    /// The current generation (read-only).
    pub closed spec fn curr_gen(self) -> Generation<T> {
        self.curr_gen
    }

    /// The configuration in force.
    pub closed spec fn config(self) -> Config {
        self.config
    }

    /// The stagnation monitor's state.
    pub closed spec fn monitor(self) -> Stagnant {
        self.stagnation
    }

    /// Whether the speciation threshold self-tunes.
    pub closed spec fn is_dynamic(self) -> bool {
        self.dynamic_distance
    }

    /// The configured population size.
    pub closed spec fn spec_size(self) -> i32 {
        self.size
    }

    /// The problem imposed on the population.
    pub closed spec fn problem(self) -> P {
        self.solve
    }

    /// Whether per-generation summaries were requested.
    pub closed spec fn debug_requested(self) -> bool {
        self.debug_progress
    }

    /// The survival policy installed for future generations.
    pub closed spec fn survivor_policy(self) -> SurvivalCriteria {
        self.survivor_criteria
    }

    /// The parental policy installed for future generations.
    pub closed spec fn parental_policy(self) -> ParentalCriteria {
        self.parental_criteria
    }

    /// The deterministic generator driving selection and genocides.
    pub closed spec fn generator(self) -> Rng {
        self.rng
    }

    /// Mutable access to the current generation's members.
    pub fn members_mut(&mut self) -> (r: &mut Vec<Container<T>>)
        ensures
            *r == old(self).curr_gen().members,
            final(self).curr_gen().members == *final(r),
            final(self).curr_gen().species == old(self).curr_gen().species,
            final(self).config() == old(self).config(),
            final(self).monitor() == old(self).monitor(),
    {
        &mut self.curr_gen.members
    }

    /// Mutable access to one member.
    pub fn member_mut(&mut self, idx: usize) -> (r: &mut Container<T>)
        requires
            idx < old(self).curr_gen().members@.len(),
        ensures
            *r == old(self).curr_gen().members@[idx as int],
            final(self).curr_gen().members@
                == old(self).curr_gen().members@.update(idx as int, *final(r)),
            final(self).curr_gen().species == old(self).curr_gen().species,
            final(self).config() == old(self).config(),
            final(self).monitor() == old(self).monitor(),
    {
        &mut self.curr_gen.members[idx]
    }

    /// One member, read-only; `None` past the end.
    pub fn member(&self, idx: usize) -> (r: Option<&Container<T>>)
        ensures
            r is Some <==> idx < self.curr_gen().members@.len(),
            r matches Some(c) ==> *c == self.curr_gen().members@[idx as int],
    {
        self.curr_gen.member(idx)
    }

    /// The stagnation counter as it stands.
    pub fn stagnation_count(&self) -> (r: usize)
        ensures
            r == self.monitor().current_stagnation,
    {
        self.stagnation.current_stagnation
    }

    /// The number of niches the last speciation produced.
    pub fn species_count(&self) -> (r: usize)
        ensures
            r == self.curr_gen().species@.len(),
    {
        self.curr_gen.species.len()
    }

    /// The speciation threshold in force, in tenths.
    pub fn current_distance(&self) -> (r: u32)
        ensures
            r == self.config().distance,
    {
        self.config.distance
    }

    /// The per-generation summary: one line per niche, built only when
    /// debugging was requested with `debug(true)`.
    pub fn show_progress(&self) -> (r: Vec<String>)
        ensures
            !self.debug_requested() ==> r@.len() == 0,
            self.debug_requested() ==> r@.len() == self.curr_gen().species@.len(),
    {
        let mut lines: Vec<String> = Vec::new();
        if !self.debug_progress {
            return lines;
        }
        let mut i: usize = 0;
        while i < self.curr_gen.species.len()
            invariant
                i <= self.curr_gen.species@.len(),
                lines@.len() == i,
            decreases self.curr_gen.species@.len() - i,
        {
            let line = self.curr_gen.species[i].display_info();
            lines.push(line);
            i += 1;
        }
        lines
    }

    /// One full cycle: evaluate the generation against the problem,
    /// then close it out and breed the next one.  The returned pair is
    /// the top score and genome as they stood after evaluation, before
    /// breeding.
    pub fn train(&mut self) -> (r: Option<(u32, T)>)
        requires
            old(self).wf(),
        ensures
            final(self).wf(),
            old(self).curr_gen().members@.len() == 0 ==> r is None
                && final(self).curr_gen().members@.len() == 0,
            old(self).curr_gen().members@.len() > 0
                && old(self).monitor().cleaners@.len() == 0 ==> r is Some,
            old(self).curr_gen().members@.len() > 0
                && old(self).monitor().target_stagnation == 0 ==> r is Some,
            r is None ==> old(self).curr_gen().members@.len() == 0 || (
            old(self).monitor().cleaners@.len() > 0
                && old(self).monitor().target_stagnation >= 1),
            r is None && old(self).curr_gen().members@.len() > 0
                ==> final(self).curr_gen().members@.len() == 0,
            r is Some ==> final(self).curr_gen().survival_criteria
                == old(self).curr_gen().survival_criteria
                && final(self).curr_gen().parental_criteria
                == old(self).curr_gen().parental_criteria,
            r matches Some((s, _)) ==> {
                &&& final(self).monitor().previous_top_score == s
                &&& final(self).monitor() == old(self).monitor().spec_step(s)
                &&& final(self).curr_gen().members@.len()
                    == Generation::<T>::target_size(old(self).spec_size())
                &&& forall|c: int| 0 <= c < final(self).curr_gen().species@.len()
                    ==> (#[trigger] final(self).curr_gen().species@[c]).members@.len() == 0
            },
            final(self).spec_size() == old(self).spec_size(),
            final(self).is_dynamic() == old(self).is_dynamic(),
            final(self).problem() == old(self).problem(),
            old(self).is_dynamic() && r is Some
                ==> final(self).config().distance >= 1,
            !old(self).is_dynamic() ==> final(self).config() == old(self).config(),
            final(self).config().inbreed_rate == old(self).config().inbreed_rate,
            final(self).config().crossover_rate == old(self).config().crossover_rate,
            final(self).config().species_target == old(self).config().species_target,
    {
        self.curr_gen.optimize(&self.solve);
        self.end_generation()
    }

    /// Close out an already-evaluated generation: capture the top
    /// member, tune the distance, speciate, manage stagnation, and
    /// replace the generation with its offspring.
    pub fn end_generation(&mut self) -> (r: Option<(u32, T)>)
        requires
            old(self).wf(),
        ensures
            final(self).wf(),
            old(self).curr_gen().members@.len() == 0 ==> r is None
                && *final(self) == *old(self),
            old(self).curr_gen().members@.len() > 0
                && old(self).monitor().cleaners@.len() == 0 ==> r is Some,
            old(self).curr_gen().members@.len() > 0
                && old(self).monitor().target_stagnation == 0 ==> r is Some,
            r is None ==> old(self).curr_gen().members@.len() == 0 || (
            old(self).monitor().cleaners@.len() > 0
                && old(self).monitor().target_stagnation >= 1),
            r is None && old(self).curr_gen().members@.len() > 0
                ==> final(self).curr_gen().members@.len() == 0,
            r is Some ==> final(self).curr_gen().survival_criteria
                == old(self).curr_gen().survival_criteria
                && final(self).curr_gen().parental_criteria
                == old(self).curr_gen().parental_criteria,
            r is None ==> final(self).curr_gen().survival_criteria
                == old(self).curr_gen().survival_criteria
                && final(self).curr_gen().parental_criteria
                == old(self).curr_gen().parental_criteria,
            r matches Some((s, _)) ==> {
                &&& exists|i: int| old(self).curr_gen().is_best(i)
                    && s == old(self).curr_gen().members@[i].fitness_score
                &&& final(self).monitor().previous_top_score == s
                &&& final(self).monitor() == old(self).monitor().spec_step(s)
                &&& final(self).curr_gen().members@.len()
                    == Generation::<T>::target_size(old(self).spec_size())
                &&& forall|c: int| 0 <= c < final(self).curr_gen().species@.len()
                    ==> (#[trigger] final(self).curr_gen().species@[c]).members@.len() == 0
            },
            final(self).spec_size() == old(self).spec_size(),
            final(self).is_dynamic() == old(self).is_dynamic(),
            final(self).problem() == old(self).problem(),
            old(self).is_dynamic() && r is Some
                ==> final(self).config().distance >= 1,
            !old(self).is_dynamic() ==> final(self).config() == old(self).config(),
            final(self).config().inbreed_rate == old(self).config().inbreed_rate,
            final(self).config().crossover_rate == old(self).config().crossover_rate,
            final(self).config().species_target == old(self).config().species_target,
    {
        let top = self.curr_gen.best_member();
        let (top_score, top_idx) = match top {
            Some(t) => t,
            None => {
                return None;
            },
        };
        let top_member = self.curr_gen.members[top_idx].member.clone();
        if self.dynamic_distance {
            self.adjust_distance();
        }
        self.curr_gen.speciate(self.config.distance, &mut self.environment);
        let (fired, _trace) = self.manage_stagnation(top_score);
        if fired {
            // the cleaners left the generation unspeciated
            self.curr_gen.speciate(self.config.distance, &mut self.environment);
        }
        let mut gen = Generation::new();
        core::mem::swap(&mut gen, &mut self.curr_gen);
        if gen.members.len() == 0 {
            proof {
                // only a firing monitor with at least one cleaner can
                // have emptied a nonempty generation
                assert(fired);
                if old(self).monitor().cleaners@.len() == 0 {
                    let tr = _trace@;
                    assert(tr[tr.len() - 1] == tr[0]);
                    assert(false);
                }
            }
            // keep the species shells and policies for the caller
            core::mem::swap(&mut gen, &mut self.curr_gen);
            return None;
        }
        let (next, _quotas) = gen.create_next_generation(self.size, &self.config,
            &mut self.environment, &mut self.rng);
        match next {
            Some(next) => {
                self.curr_gen = next;
                Some((top_score, top_member))
            },
            None => None,
        }
    }

    /// Observe the top score; when the monitor fires, run every
    /// configured cleaner over the current generation in declaration
    /// order, later cleaners seeing earlier effects.  The returned
    /// ghost trace pins each cleaner's effect: its entries are the
    /// generation before and after every application, consecutive
    /// entries related by that cleaner's [`Genocide::kill_rel`].
    fn manage_stagnation(&mut self, curr_top_score: u32) -> (r: (
        bool,
        Ghost<Seq<Generation<T>>>,
    ))
        requires
            old(self).wf(),
        ensures
            r.0 == old(self).monitor().spec_fires(curr_top_score),
            final(self).monitor() == old(self).monitor().spec_step(curr_top_score),
            final(self).monitor().wf(),
            final(self).curr_gen().members@.len() <= old(self).curr_gen().members@.len(),
            !r.0 ==> final(self).curr_gen() == old(self).curr_gen(),
            r.0 ==> old(self).monitor().target_stagnation >= 1,
            r.0 ==> {
                let tr = r.1@;
                &&& tr.len() == old(self).monitor().cleaners@.len() + 1
                &&& tr[0] == old(self).curr_gen()
                &&& tr[tr.len() - 1] == final(self).curr_gen()
                &&& forall|i: int| 0 <= i < old(self).monitor().cleaners@.len()
                    ==> (#[trigger] old(self).monitor().cleaners@[i]).kill_rel(
                        tr[i],
                        tr[i + 1],
                    )
            },
            final(self).curr_gen().survival_criteria
                == old(self).curr_gen().survival_criteria,
            final(self).curr_gen().parental_criteria
                == old(self).curr_gen().parental_criteria,
            final(self).config() == old(self).config(),
            final(self).spec_size() == old(self).spec_size(),
            final(self).is_dynamic() == old(self).is_dynamic(),
            final(self).problem() == old(self).problem(),
    {
        let fired = self.stagnation.step(curr_top_score);
        let ghost mut trace: Seq<Generation<T>> = Seq::empty().push(self.curr_gen);
        if fired {
            let n = self.stagnation.cleaners.len();
            let mut i: usize = 0;
            while i < n
                invariant
                    i <= n == self.stagnation.cleaners@.len(),
                    self.curr_gen.members@.len() <= old(self).curr_gen.members@.len(),
                    self.stagnation == old(self).stagnation.spec_step(curr_top_score),
                    self.config == old(self).config,
                    self.size == old(self).size,
                    self.dynamic_distance == old(self).dynamic_distance,
                    self.solve == old(self).solve,
                    self.curr_gen.survival_criteria == old(self).curr_gen.survival_criteria,
                    self.curr_gen.parental_criteria == old(self).curr_gen.parental_criteria,
                    trace.len() == i + 1,
                    trace[0] == old(self).curr_gen,
                    trace[trace.len() - 1] == self.curr_gen,
                    forall|j: int| 0 <= j < i
                        ==> (#[trigger] self.stagnation.cleaners@[j]).kill_rel(
                            trace[j],
                            trace[j + 1],
                        ),
                decreases n - i,
            {
                let cleaner = self.stagnation.cleaners[i];
                cleaner.kill(&mut self.curr_gen, &mut self.rng);
                proof {
                    trace = trace.push(self.curr_gen);
                }
                i += 1;
            }
        }
        (fired, Ghost(trace))
    }

    /// Self-tune the speciation threshold toward the species target:
    /// one tenth down when there are too few niches, one tenth up when
    /// too many, never below the floor of one tenth.
    fn adjust_distance(&mut self)
        ensures
            final(self).config().distance >= 1,
            final(self).curr_gen() == old(self).curr_gen(),
            final(self).monitor() == old(self).monitor(),
            final(self).spec_size() == old(self).spec_size(),
            final(self).is_dynamic() == old(self).is_dynamic(),
            final(self).config().inbreed_rate == old(self).config().inbreed_rate,
            final(self).config().crossover_rate == old(self).config().crossover_rate,
            final(self).config().species_target == old(self).config().species_target,
            old(self).curr_gen().species@.len() < old(self).config().species_target
                ==> final(self).config().distance == (if old(self).config().distance >= 3 {
                old(self).config().distance - 1
            } else {
                1int
            }),
            old(self).curr_gen().species@.len() > old(self).config().species_target
                ==> final(self).config().distance == (if old(self).config().distance == 0 {
                1int
            } else if old(self).config().distance < 0xFFFF_FFFFu32 {
                old(self).config().distance + 1
            } else {
                0xFFFF_FFFFint
            }),
            old(self).curr_gen().species@.len() == old(self).config().species_target
                ==> final(self).config().distance == (if old(self).config().distance < 2 {
                1int
            } else {
                old(self).config().distance as int
            }),
            final(self).config().distance < 2 ==> final(self).config().distance == 1,
            final(self).problem() == old(self).problem(),
            final(self).debug_requested() == old(self).debug_requested(),
            final(self).survivor_policy() == old(self).survivor_policy(),
            final(self).parental_policy() == old(self).parental_policy(),
            final(self).generator() == old(self).generator(),
    {
        if self.curr_gen.species.len() < self.config.species_target {
            if self.config.distance > 0 {
                self.config.distance = self.config.distance - 1;
            }
        } else if self.curr_gen.species.len() > self.config.species_target {
            if self.config.distance < u32::MAX {
                self.config.distance = self.config.distance + 1;
            }
        }
        if self.config.distance < 2 {
            self.config.distance = 1;
        }
    }

    /// The caller's predicate accepted this genome at some score and
    /// iteration: what `run`'s successful result is drawn from.
    pub open spec fn accepted_by<F: Fn(&T, u32, i32) -> bool>(runner: F, genome: T) -> bool {
        exists|fit: u32, it: i32| call_ensures(runner, (&genome, fit, it), true)
    }

    /// Loop `train` until the caller's predicate accepts the top
    /// member, then hand back that genome and a snapshot of the
    /// environment.  Training an empty population is an error.
    pub fn run<F>(&mut self, runner: F) -> (r: Result<(T, E), &'static str>)
        where
            F: Fn(&T, u32, i32) -> bool,
            E: Clone,
        requires
            old(self).wf(),
            forall|a: (&T, u32, i32)| #[trigger] call_requires(runner, a),
        ensures
            final(self).wf(),
            old(self).curr_gen().members@.len() == 0 ==> r matches Err(_),
            r matches Err(e) ==> e@ == "Error Training"@,
            r matches Ok(p) ==> Self::accepted_by(runner, p.0),
    {
        let mut index: i32 = 0;
        while index < i32::MAX
            invariant
                self.wf(),
                forall|a: (&T, u32, i32)| #[trigger] call_requires(runner, a),
                0 <= index,
                index == 0 ==> *self == *old(self),
                index > 0 ==> old(self).curr_gen().members@.len() > 0,
            decreases i32::MAX - index,
        {
            match self.train() {
                Some(result) => {
                    let (fit, top) = result;
                    if runner(&top, fit, index) {
                        let env = self.environment.clone();
                        let pair = (top, env);
                        proof {
                            assert(call_ensures(runner, (&pair.0, fit, index), true));
                            assert(Self::accepted_by(runner, pair.0));
                        }
                        return Ok(pair);
                    }
                    index += 1;
                },
                None => {
                    return Err("Error Training");
                },
            }
        }
        Err("Error Training")
    }

    /// Install a generation built elsewhere.
    pub fn populate_gen(self, gen: Generation<T>) -> (r: Self)
        requires
            gen.members@.len() <= 0x4000_0000,
            self.wf(),
        ensures
            r.wf(),
            r.curr_gen() == gen,
            r.spec_size() == self.spec_size(),
            r.config() == self.config(),
            r.monitor() == self.monitor(),
            r.problem() == self.problem(),
            r.is_dynamic() == self.is_dynamic(),
            r.debug_requested() == self.debug_requested(),
            r.survivor_policy() == self.survivor_policy(),
            r.parental_policy() == self.parental_policy(),
            r.generator() == self.generator(),
    {
        let mut p = self;
        p.curr_gen = gen;
        p
    }

    /// Seed the first generation with base genomes from the encoding.
    #[verifier::loop_isolation(false)]
    pub fn populate_base(self) -> (r: Self)
        requires
            self.wf(),
        ensures
            r.wf(),
            r.curr_gen().members@.len() == Generation::<T>::target_size(self.spec_size()),
            forall|m: int|
                #![trigger r.curr_gen().members@[m]]
                0 <= m < r.curr_gen().members@.len() ==> {
                    &&& r.curr_gen().members@[m].fitness_score == 0
                    &&& r.curr_gen().members@[m].species is None
                },
            r.curr_gen().species@.len() == 0,
            r.spec_size() == self.spec_size(),
            r.config() == self.config(),
            r.monitor() == self.monitor(),
            r.problem() == self.problem(),
            r.is_dynamic() == self.is_dynamic(),
            r.debug_requested() == self.debug_requested(),
            r.survivor_policy() == self.survivor_policy(),
            r.parental_policy() == self.parental_policy(),
            r.generator() == self.generator(),
    {
        let ghost s0 = self;
        let mut p = self;
        let n: usize = if p.size < 0 {
            0
        } else {
            p.size as usize
        };
        let mut members: Vec<Container<T>> = Vec::new();
        let mut i: usize = 0;
        while i < n
            invariant
                i <= n,
                n == Generation::<T>::target_size(s0.spec_size()),
                p.size == s0.spec_size(),
                p.stagnation == s0.monitor(),
                p.config == s0.config(),
                p.solve == s0.problem(),
                p.dynamic_distance == s0.is_dynamic(),
                p.debug_progress == s0.debug_requested(),
                p.survivor_criteria == s0.survivor_policy(),
                p.parental_criteria == s0.parental_policy(),
                p.rng == s0.generator(),
                members@.len() == i,
                forall|m: int|
                    #![trigger members@[m]]
                    0 <= m < i ==> members@[m].fitness_score == 0
                        && members@[m].species is None,
            decreases n - i,
        {
            let g = T::base(&mut p.environment);
            members.push(Container::from_member(g));
            i += 1;
        }
        p.curr_gen = Generation {
            members,
            species: Vec::new(),
            survival_criteria: p.survivor_criteria,
            parental_criteria: p.parental_criteria,
        };
        p
    }

    /// Seed the first generation from a vector of genomes.
    #[verifier::loop_isolation(false)]
    pub fn populate_vec(self, vals: Vec<T>) -> (r: Self)
        requires
            self.wf(),
            vals@.len() <= 0x4000_0000,
        ensures
            r.wf(),
            r.curr_gen().members@.len() == vals@.len(),
            forall|m: int|
                #![trigger r.curr_gen().members@[m]]
                0 <= m < r.curr_gen().members@.len() ==> {
                    &&& r.curr_gen().members@[m].member == vals@[m]
                    &&& r.curr_gen().members@[m].fitness_score == 0
                    &&& r.curr_gen().members@[m].species is None
                },
            r.curr_gen().species@.len() == 0,
            r.spec_size() == self.spec_size(),
            r.config() == self.config(),
            r.monitor() == self.monitor(),
            r.problem() == self.problem(),
            r.is_dynamic() == self.is_dynamic(),
            r.debug_requested() == self.debug_requested(),
            r.survivor_policy() == self.survivor_policy(),
            r.parental_policy() == self.parental_policy(),
            r.generator() == self.generator(),
    {
        let mut p = self;
        let n = vals.len();
        let ghost v0 = vals@;
        let mut vals = vals;
        let mut rev: Vec<T> = Vec::new();
        while vals.len() > 0
            invariant
                vals@.len() + rev@.len() == n,
                vals@ == v0.subrange(0, vals@.len() as int),
                forall|m: int| 0 <= m < rev@.len() ==> (#[trigger] rev@[m]) == v0[n - 1 - m],
            decreases vals@.len(),
        {
            let g = vals.pop().unwrap();
            proof {
                assert(g == v0[vals@.len() as int]);
                assert(vals@ =~= v0.subrange(0, vals@.len() as int));
            }
            rev.push(g);
        }
        let mut members: Vec<Container<T>> = Vec::new();
        while rev.len() > 0
            invariant
                members@.len() + rev@.len() == n,
                forall|m: int| 0 <= m < rev@.len() ==> (#[trigger] rev@[m]) == v0[n - 1 - m],
                forall|m: int|
                    #![trigger members@[m]]
                    0 <= m < members@.len() ==> {
                        &&& members@[m].member == v0[m]
                        &&& members@[m].fitness_score == 0
                        &&& members@[m].species is None
                    },
            decreases rev@.len(),
        {
            let g = rev.pop().unwrap();
            proof {
                assert(g == v0[members@.len() as int]);
            }
            members.push(Container::from_member(g));
        }
        p.curr_gen = Generation {
            members,
            species: Vec::new(),
            survival_criteria: p.survivor_criteria,
            parental_criteria: p.parental_criteria,
        };
        p
    }

    /// Seed the first generation with clones of one genome.
    #[verifier::loop_isolation(false)]
    pub fn populate_clone(self, original: T) -> (r: Self)
        requires
            self.wf(),
        ensures
            r.wf(),
            r.curr_gen().members@.len() == Generation::<T>::target_size(self.spec_size()),
            forall|m: int|
                #![trigger r.curr_gen().members@[m]]
                0 <= m < r.curr_gen().members@.len() ==> {
                    &&& r.curr_gen().members@[m].fitness_score == 0
                    &&& r.curr_gen().members@[m].species is None
                },
            r.curr_gen().species@.len() == 0,
            r.spec_size() == self.spec_size(),
            r.config() == self.config(),
            r.monitor() == self.monitor(),
            r.problem() == self.problem(),
            r.is_dynamic() == self.is_dynamic(),
            r.debug_requested() == self.debug_requested(),
            r.survivor_policy() == self.survivor_policy(),
            r.parental_policy() == self.parental_policy(),
            r.generator() == self.generator(),
    {
        let mut p = self;
        let n: usize = if p.size < 0 {
            0
        } else {
            p.size as usize
        };
        let mut members: Vec<Container<T>> = Vec::new();
        let mut i: usize = 0;
        while i < n
            invariant
                i <= n,
                members@.len() == i,
                forall|m: int|
                    #![trigger members@[m]]
                    0 <= m < i ==> members@[m].fitness_score == 0
                        && members@[m].species is None,
            decreases n - i,
        {
            members.push(Container::from_member(original.clone()));
            i += 1;
        }
        p.curr_gen = Generation {
            members,
            species: Vec::new(),
            survival_criteria: p.survivor_criteria,
            parental_criteria: p.parental_criteria,
        };
        p
    }

    /// Install an environment.
    pub fn constrain(self, environment: E) -> (r: Self)
        requires
            self.wf(),
        ensures
            r.wf(),
            r.curr_gen() == self.curr_gen(),
            r.spec_size() == self.spec_size(),
            r.config() == self.config(),
            r.monitor() == self.monitor(),
            r.problem() == self.problem(),
            r.is_dynamic() == self.is_dynamic(),
            r.debug_requested() == self.debug_requested(),
            r.survivor_policy() == self.survivor_policy(),
            r.parental_policy() == self.parental_policy(),
            r.generator() == self.generator(),
    {
        let mut p = self;
        p.environment = environment;
        p
    }

    /// Set the population size.
    pub fn size(self, size: i32) -> (r: Self)
        requires
            self.wf(),
            size <= 0x4000_0000,
        ensures
            r.wf(),
            r.spec_size() == size,
            r.curr_gen() == self.curr_gen(),
            r.config() == self.config(),
            r.monitor() == self.monitor(),
            r.problem() == self.problem(),
            r.is_dynamic() == self.is_dynamic(),
            r.debug_requested() == self.debug_requested(),
            r.survivor_policy() == self.survivor_policy(),
            r.parental_policy() == self.parental_policy(),
            r.generator() == self.generator(),
    {
        let mut p = self;
        p.size = size;
        p
    }

    /// Read the population size.
    pub fn get_size(&self) -> (r: i32)
        ensures
            r == self.spec_size(),
    {
        self.size
    }

    /// Enable or disable the self-tuning speciation threshold.
    pub fn dynamic_distance(self, opt: bool) -> (r: Self)
        requires
            self.wf(),
        ensures
            r.wf(),
            r.is_dynamic() == opt,
            r.curr_gen() == self.curr_gen(),
            r.spec_size() == self.spec_size(),
            r.config() == self.config(),
            r.monitor() == self.monitor(),
            r.problem() == self.problem(),
            r.debug_requested() == self.debug_requested(),
            r.survivor_policy() == self.survivor_policy(),
            r.parental_policy() == self.parental_policy(),
            r.generator() == self.generator(),
    {
        let mut p = self;
        p.dynamic_distance = opt;
        p
    }

    /// Install the stagnation target and the genocides to fire.
    pub fn stagnation(self, stag: usize, cleaner: Vec<Genocide>) -> (r: Self)
        requires
            self.wf(),
        ensures
            r.wf(),
            r.monitor().target_stagnation == stag,
            r.monitor().current_stagnation == 0,
            r.monitor().previous_top_score == 0,
            r.monitor().cleaners == cleaner,
            r.curr_gen() == self.curr_gen(),
            r.spec_size() == self.spec_size(),
            r.config() == self.config(),
            r.problem() == self.problem(),
            r.is_dynamic() == self.is_dynamic(),
            r.debug_requested() == self.debug_requested(),
            r.survivor_policy() == self.survivor_policy(),
            r.parental_policy() == self.parental_policy(),
            r.generator() == self.generator(),
    {
        let mut p = self;
        p.stagnation = Stagnant::new(stag, cleaner);
        p
    }

    /// Overwrite the configuration.
    pub fn configure(self, spec: Config) -> (r: Self)
        requires
            self.wf(),
        ensures
            r.wf(),
            r.config() == spec,
            r.curr_gen() == self.curr_gen(),
            r.spec_size() == self.spec_size(),
            r.monitor() == self.monitor(),
            r.problem() == self.problem(),
            r.is_dynamic() == self.is_dynamic(),
            r.debug_requested() == self.debug_requested(),
            r.survivor_policy() == self.survivor_policy(),
            r.parental_policy() == self.parental_policy(),
            r.generator() == self.generator(),
    {
        let mut p = self;
        p.config = spec;
        p
    }

    /// Impose the problem the population is to solve.
    pub fn impose(self, prob: P) -> (r: Self)
        requires
            self.wf(),
        ensures
            r.wf(),
            r.curr_gen() == self.curr_gen(),
            r.spec_size() == self.spec_size(),
            r.config() == self.config(),
            r.monitor() == self.monitor(),
            r.problem() == prob,
            r.is_dynamic() == self.is_dynamic(),
            r.debug_requested() == self.debug_requested(),
            r.survivor_policy() == self.survivor_policy(),
            r.parental_policy() == self.parental_policy(),
            r.generator() == self.generator(),
    {
        let mut p = self;
        p.solve = prob;
        p
    }

    /// Toggle the per-generation summary.
    pub fn debug(self, d: bool) -> (r: Self)
        requires
            self.wf(),
        ensures
            r.wf(),
            r.debug_requested() == d,
            r.curr_gen() == self.curr_gen(),
            r.spec_size() == self.spec_size(),
            r.config() == self.config(),
            r.monitor() == self.monitor(),
            r.problem() == self.problem(),
            r.is_dynamic() == self.is_dynamic(),
            r.survivor_policy() == self.survivor_policy(),
            r.parental_policy() == self.parental_policy(),
            r.generator() == self.generator(),
    {
        let mut p = self;
        p.debug_progress = d;
        p
    }

    /// Install the survival criteria, for this and later generations.
    pub fn survivor_criteria(self, survive: SurvivalCriteria) -> (r: Self)
        requires
            self.wf(),
        ensures
            r.wf(),
            r.curr_gen().survival_criteria == survive,
            r.survivor_policy() == survive,
            r.curr_gen().members == self.curr_gen().members,
            r.curr_gen().species == self.curr_gen().species,
            r.curr_gen().parental_criteria == self.curr_gen().parental_criteria,
            r.spec_size() == self.spec_size(),
            r.config() == self.config(),
            r.monitor() == self.monitor(),
            r.problem() == self.problem(),
            r.is_dynamic() == self.is_dynamic(),
            r.debug_requested() == self.debug_requested(),
            r.parental_policy() == self.parental_policy(),
            r.generator() == self.generator(),
    {
        let mut p = self;
        p.survivor_criteria = survive;
        p.curr_gen.survival_criteria = survive;
        p
    }

    /// Install the parental criteria, for this and later generations.
    pub fn parental_criteria(self, parents: ParentalCriteria) -> (r: Self)
        requires
            self.wf(),
        ensures
            r.wf(),
            r.curr_gen().parental_criteria == parents,
            r.parental_policy() == parents,
            r.curr_gen().members == self.curr_gen().members,
            r.curr_gen().species == self.curr_gen().species,
            r.curr_gen().survival_criteria == self.curr_gen().survival_criteria,
            r.spec_size() == self.spec_size(),
            r.config() == self.config(),
            r.monitor() == self.monitor(),
            r.problem() == self.problem(),
            r.is_dynamic() == self.is_dynamic(),
            r.debug_requested() == self.debug_requested(),
            r.survivor_policy() == self.survivor_policy(),
            r.generator() == self.generator(),
    {
        let mut p = self;
        p.parental_criteria = parents;
        p.curr_gen.parental_criteria = parents;
        p
    }
}

} // verus!
