//! One time-step of the evolution: the containers holding the live
//! candidates, the current species list, and the operations the
//! population cycle drives them through — parallel fitness evaluation,
//! speciation, and reproduction into the next generation.

use vstd::prelude::*;
use vstd::set_lib::{lemma_int_range, lemma_len_subset, lemma_map_size, set_int_range};
use vstd::relations::injective_on;
use vstd::arithmetic::div_mod::{lemma_div_is_ordered, lemma_div_multiples_vanish};

use crate::apportion::{apportion, lemma_sum_bound, lemma_sum_prefix_step, lemma_sum_update,
    quota_total, sum_int};
use crate::genome::Genome;
use crate::population::Config;
use crate::problem::Problem;
use crate::rng::Rng;
use crate::survival::{ParentalCriteria, SurvivalCriteria};

use rayon::iter::IntoParallelRefMutIterator;
use rayon::iter::ParallelIterator;

verus! {

broadcast use vstd::seq_lib::lemma_seq_contains_after_push;

/// A wrapper around one live candidate: the genome, its current fitness
/// score, and the index of the niche it belongs to, if assigned.
pub struct Container<G> {
    pub member: G,
    pub fitness_score: u32,
    pub species: Option<usize>,
}

impl<G> Container<G> {
    /// A fresh container: fitness zero, no species assigned.
    pub fn from_member(member: G) -> (r: Container<G>)
        ensures
            r.member == member,
            r.fitness_score == 0,
            r.species is None,
    {
        Container { member, fitness_score: 0, species: None }
    }
}

/// A species: a representative genome, the indices of the members
/// assigned to it, and its aggregated fitness statistics.
pub struct Niche<G> {
    pub representative: G,
    pub members: Vec<usize>,
    pub best_score: u32,
    pub age: u32,
    pub stagnation_age: u32,
}

impl<G> Niche<G> {
    /// An empty niche around a representative.
    pub fn new(representative: G) -> (r: Niche<G>)
        ensures
            r.representative == representative,
            r.members@ =~= Seq::<usize>::empty(),
            r.best_score == 0,
            r.age == 0,
            r.stagnation_age == 0,
    {
        Niche { representative, members: Vec::new(), best_score: 0, age: 0, stagnation_age: 0 }
    }

    /// Does the candidate fall within `threshold` of the representative?
    pub fn accepts<E>(&self, candidate: &G, env: &mut E, threshold: u32) -> bool
        where G: Genome<G, E>,
    {
        let d = G::distance(candidate, &self.representative, env);
        d < threshold
    }

    /// A one-line, read-only summary of the niche: best score, age and
    /// member count.  Meant for debugging output.
    pub fn display_info(&self) -> String {
        render_niche_info(self.best_score, self.age, self.members.len())
    }

    /// The canonical fitness sharing: a member's raw score divided by
    /// the niche's member count, kept exact by scaling to thousandths.
    pub fn adjusted_fitness(&self, member_score: u32) -> (r: u64)
        requires
            self.members@.len() > 0,
        ensures
            r == member_score * 1000 / (self.members@.len() as int),
    {
        (member_score as u64 * 1000) / (self.members.len() as u64)
    }
}

/// One generation: all containers, the species list, and the selection
/// policies in force.
pub struct Generation<G> {
    pub members: Vec<Container<G>>,
    pub species: Vec<Niche<G>>,
    pub survival_criteria: SurvivalCriteria,
    pub parental_criteria: ParentalCriteria,
}

impl<G> Generation<G> {
    /// Member `m` is assigned to a niche that lists it.
    pub open spec fn member_assigned(self, m: int) -> bool {
        &&& self.members[m].species is Some
        &&& (self.members[m].species.unwrap() as int) < self.species.len()
        &&& self.species[self.members[m].species.unwrap() as int].members@.contains(m as usize)
    }

    /// Niche `i` is nonempty and lists only members assigned to it.
    pub open spec fn niche_ok(self, i: int) -> bool {
        &&& self.species[i].members.len() >= 1
        &&& forall|k: int|
              #![trigger self.species[i].members[k]]
              0 <= k < self.species[i].members.len()
              ==> (self.species[i].members[k] as int) < self.members.len()
                  && self.members[self.species[i].members[k] as int].species == Some(i as usize)
    }

    /// Niche `i`'s recorded best score is the maximum fitness among its
    /// members: no member beats it and some member attains it.
    pub open spec fn niche_scored(self, i: int) -> bool {
        &&& forall|k: int|
              #![trigger self.species[i].members[k]]
              0 <= k < self.species[i].members.len()
              ==> self.members[self.species[i].members[k] as int].fitness_score
                  <= self.species[i].best_score
        &&& exists|k: int| 0 <= k < self.species[i].members.len()
              && self.members[#[trigger] self.species[i].members[k] as int].fitness_score
                  == self.species[i].best_score
    }

    /// The generation is fully speciated: every member belongs to a
    /// niche that lists it, and every niche is a nonempty, consistent
    /// cluster.  This is the shape `speciate` establishes.
    pub open spec fn speciated(self) -> bool {
        &&& forall|m: int| 0 <= m < self.members.len() ==> self.member_assigned(m)
        &&& forall|i: int| 0 <= i < self.species.len() ==> self.niche_ok(i)
    }

    /// Index `i` holds the maximum fitness, with ties broken by the
    /// lowest index.
    pub open spec fn is_best(self, i: int) -> bool {
        &&& 0 <= i < self.members.len()
        &&& forall|j: int| 0 <= j < self.members.len()
              ==> (#[trigger] self.members[j].fitness_score) <= self.members[i].fitness_score
        &&& forall|j: int| 0 <= j < i
              ==> (#[trigger] self.members[j].fitness_score) < self.members[i].fitness_score
    }

    /// No member carries a species assignment and no niche lists any
    /// member: the state genocides leave behind, before re-speciation.
    pub open spec fn unspeciated(self) -> bool {
        &&& forall|m: int|
              #![trigger self.members[m]]
              0 <= m < self.members.len() ==> self.members[m].species is None
        &&& forall|c: int|
              #![trigger self.species[c]]
              0 <= c < self.species.len() ==> self.species[c].members.len() == 0
    }

    /// The two member lists hold the same candidates with the same
    /// fitness scores; only the species assignments may differ.
    pub open spec fn same_members(a: Seq<Container<G>>, b: Seq<Container<G>>) -> bool {
        &&& a.len() == b.len()
        &&& forall|m: int| 0 <= m < a.len()
              ==> (#[trigger] b[m].member) == a[m].member && b[m].fitness_score == a[m].fitness_score
    }

    /// An empty generation with the default policies.
    pub fn new() -> (r: Generation<G>)
        ensures
            r.members@.len() == 0,
            r.species@.len() == 0,
            r.survival_criteria == SurvivalCriteria::Fittest,
            r.parental_criteria == ParentalCriteria::BiasedRandom,
    {
        Generation {
            members: Vec::new(),
            species: Vec::new(),
            survival_criteria: SurvivalCriteria::Fittest,
            parental_criteria: ParentalCriteria::BiasedRandom,
        }
    }

    /// Get a member.
    pub fn member(&self, idx: usize) -> (r: Option<&Container<G>>)
        ensures
            r is Some <==> idx < self.members.len(),
            r matches Some(c) ==> *c == self.members[idx as int],
    {
        if idx < self.members.len() {
            Some(&self.members[idx])
        } else {
            None
        }
    }

    /// Forget every species assignment: members lose their niche id and
    /// niches their member lists.  Representatives and statistics stay.
    #[verifier::spinoff_prover]
    pub fn clear_assignments(&mut self)
        ensures
            Self::same_members(old(self).members@, final(self).members@),
            final(self).members@.len() == old(self).members@.len(),
            final(self).unspeciated(),
            final(self).species@.len() == old(self).species@.len(),
            forall|c: int|
                #![trigger final(self).species@[c]]
                0 <= c < old(self).species@.len() ==> {
                    &&& final(self).species@[c].representative
                        == old(self).species@[c].representative
                    &&& final(self).species@[c].best_score == old(self).species@[c].best_score
                    &&& final(self).species@[c].age == old(self).species@[c].age
                    &&& final(self).species@[c].stagnation_age
                        == old(self).species@[c].stagnation_age
                },
            final(self).survival_criteria == old(self).survival_criteria,
            final(self).parental_criteria == old(self).parental_criteria,
    {
        let mut m: usize = 0;
        while m < self.members.len()
            invariant
                m <= self.members@.len(),
                self.members@.len() == old(self).members@.len(),
                Self::same_members(old(self).members@, self.members@),
                self.species@ == old(self).species@,
                self.survival_criteria == old(self).survival_criteria,
                self.parental_criteria == old(self).parental_criteria,
                forall|j: int|
                    #![trigger self.members@[j]]
                    0 <= j < m ==> self.members@[j].species is None,
                forall|j: int|
                    #![trigger self.members@[j]]
                    m <= j < self.members@.len()
                        ==> self.members@[j].species == old(self).members@[j].species,
            decreases self.members@.len() - m,
        {
            let ghost pre = self.members@;
            self.members[m].species = None;
            proof {
                assert(self.members@[m as int].member == pre[m as int].member);
                assert(self.members@[m as int].fitness_score == pre[m as int].fitness_score);
                assert(forall|j: int| 0 <= j < pre.len() && j != m as int
                    ==> (#[trigger] self.members@[j]) == pre[j]);
            }
            m += 1;
        }
        let mut c: usize = 0;
        while c < self.species.len()
            invariant
                c <= self.species@.len(),
                self.species@.len() == old(self).species@.len(),
                self.members@.len() == old(self).members@.len(),
                Self::same_members(old(self).members@, self.members@),
                self.survival_criteria == old(self).survival_criteria,
                self.parental_criteria == old(self).parental_criteria,
                forall|j: int|
                    #![trigger self.members@[j]]
                    0 <= j < self.members@.len() ==> self.members@[j].species is None,
                forall|j: int|
                    #![trigger self.species@[j]]
                    0 <= j < c ==> self.species@[j].members@.len() == 0,
                forall|j: int|
                    #![trigger self.species@[j]]
                    0 <= j < self.species@.len() ==> {
                        &&& self.species@[j].representative
                            == old(self).species@[j].representative
                        &&& self.species@[j].best_score == old(self).species@[j].best_score
                        &&& self.species@[j].age == old(self).species@[j].age
                        &&& self.species@[j].stagnation_age
                            == old(self).species@[j].stagnation_age
                    },
            decreases self.species@.len() - c,
        {
            self.species[c].members = Vec::new();
            c += 1;
        }
    }

    /// Evaluate every container against the problem and store the score.
    ///
    /// Only the fitness scores change: the member count, the species
    /// assignments, the niches and the policies are untouched.  The
    /// scores themselves come from the user's problem and nothing is
    /// assumed of them.
    pub fn optimize<E, P>(&mut self, problem: &P)
        where
            G: Genome<G, E> + Send,
            P: Problem<G> + Sync,
        ensures
            final(self).members.len() == old(self).members.len(),
            forall|m: int| 0 <= m < old(self).members.len()
                ==> (#[trigger] final(self).members[m].species) == old(self).members[m].species,
            final(self).species == old(self).species,
            final(self).survival_criteria == old(self).survival_criteria,
            final(self).parental_criteria == old(self).parental_criteria,
    {
        evaluate_all(&mut self.members, problem);
    }

    /// The (score, index) of the best member; `None` iff the generation
    /// is empty.  Ties are broken by the lower index.
    pub fn best_member(&self) -> (r: Option<(u32, usize)>)
        ensures
            r is Some <==> self.members.len() > 0,
            r matches Some((s, i)) ==> self.is_best(i as int)
                && s == self.members[i as int].fitness_score,
    {
        if self.members.len() == 0 {
            return None;
        }
        let mut best: usize = 0;
        let mut m: usize = 1;
        while m < self.members.len()
            invariant
                0 <= best < m <= self.members.len(),
                forall|j: int| 0 <= j < m
                    ==> (#[trigger] self.members[j].fitness_score)
                        <= self.members[best as int].fitness_score,
                forall|j: int| 0 <= j < best
                    ==> (#[trigger] self.members[j].fitness_score)
                        < self.members[best as int].fitness_score,
            decreases self.members.len() - m,
        {
            if self.members[m].fitness_score > self.members[best].fitness_score {
                best = m;
            }
            m += 1;
        }
        Some((self.members[best].fitness_score, best))
    }

    /// Partition the members into niches by genetic distance.
    ///
    /// Every member is placed, in index order, into the first carried
    /// niche whose representative accepts it under `threshold`; a member
    /// no niche accepts founds a new niche with itself as
    /// representative.  Niches left without members are dropped, and
    /// every surviving niche updates its statistics: `best_score`
    /// becomes the best member fitness, `age` grows by one, and
    /// `stagnation_age` resets to zero exactly when the best score
    /// strictly improved.
    #[verifier::loop_isolation(false)]
    pub fn speciate<E>(&mut self, threshold: u32, env: &mut E)
        where
            G: Genome<G, E> + Clone,
        ensures
            Self::same_members(old(self).members@, final(self).members@),
            final(self).speciated(),
            forall|i: int| 0 <= i < final(self).species@.len()
                ==> final(self).niche_scored(i),
            final(self).species@.len() <= old(self).species@.len() + old(self).members@.len(),
            final(self).survival_criteria == old(self).survival_criteria,
            final(self).parental_criteria == old(self).parental_criteria,
    {
        let nm = self.members.len();
        let ghost base = self.species@.len() as int;

        // Empty the carried niches of members; representatives and
        // statistics stay for the update below.
        let mut i: usize = 0;
        while i < self.species.len()
            invariant
                i <= self.species@.len(),
                self.species@.len() == base,
                self.members@ == old(self).members@,
                self.survival_criteria == old(self).survival_criteria,
                self.parental_criteria == old(self).parental_criteria,
                forall|c: int| 0 <= c < i ==> (#[trigger] self.species@[c].members@.len()) == 0,
            decreases self.species@.len() - i,
        {
            self.species[i].members = Vec::new();
            i += 1;
        }

        // Assign every member to the first accepting niche, founding
        // new niches as needed.
        let mut m: usize = 0;
        while m < nm
            invariant
                m <= nm == self.members@.len(),
                base <= self.species@.len() <= base + m,
                Self::same_members(old(self).members@, self.members@),
                self.survival_criteria == old(self).survival_criteria,
                self.parental_criteria == old(self).parental_criteria,
                forall|mp: int| 0 <= mp < m ==> {
                    &&& (#[trigger] self.members@[mp].species) is Some
                    &&& (self.members@[mp].species.unwrap() as int) < self.species@.len()
                    &&& self.species@[self.members@[mp].species.unwrap() as int].members@.contains(
                        mp as usize)
                },
                forall|c: int, k: int|
                    #![trigger self.species@[c].members@[k]]
                    0 <= c < self.species@.len()
                    && 0 <= k < self.species@[c].members@.len() ==> {
                    &&& (self.species@[c].members@[k] as int) < m
                    &&& self.members@[self.species@[c].members@[k] as int].species
                        == Some(c as usize)
                },
            decreases nm - m,
        {
            let found = first_accepting(&self.species, &self.members[m].member, threshold, env);
            match found {
                Some(c) => {
                    self.species[c].members.push(m);
                    self.members[m].species = Some(c);
                },
                None => {
                    let rep = self.members[m].member.clone();
                    let mut niche = Niche::new(rep);
                    niche.members.push(m);
                    self.members[m].species = Some(self.species.len());
                    self.species.push(niche);
                },
            }
            m += 1;
        }

        // Snapshot the assignment; the niche list is now compacted.
        let ghost s0 = self.species@;
        let ghost p1 = self.members@.map_values(|c: Container<G>| c.species);
        proof {
            assert(forall|mp: int| 0 <= mp < nm ==> {
                &&& (#[trigger] p1[mp]) is Some
                &&& (p1[mp].unwrap() as int) < s0.len()
                &&& s0[p1[mp].unwrap() as int].members@.contains(mp as usize)
            });
            assert(forall|c: int, k: int|
                #![trigger s0[c].members@[k]]
                0 <= c < s0.len() && 0 <= k < s0[c].members@.len()
                ==> (s0[c].members@[k] as int) < nm
                    && p1[s0[c].members@[k] as int] == Some(c as usize));
        }

        // Drop the niches that took no members, keeping the survivors
        // in order and remembering where each candidate went.
        let mut rev: Vec<Niche<G>> = Vec::new();
        while self.species.len() > 0
            invariant
                rev@.len() + self.species@.len() == s0.len(),
                self.species@ == s0.subrange(0, self.species@.len() as int),
                forall|r: int| 0 <= r < rev@.len()
                    ==> (#[trigger] rev@[r]) == s0[s0.len() - 1 - r],
                self.members@.map_values(|c: Container<G>| c.species) == p1,
                Self::same_members(old(self).members@, self.members@),
                self.survival_criteria == old(self).survival_criteria,
                self.parental_criteria == old(self).parental_criteria,
            decreases self.species@.len(),
        {
            let niche = self.species.pop().unwrap();
            rev.push(niche);
        }

        let mut new_idx: Vec<Option<usize>> = Vec::new();
        let ghost mut srcs: Seq<int> = Seq::empty();
        while rev.len() > 0
            invariant
                new_idx@.len() + rev@.len() == s0.len(),
                forall|r: int| 0 <= r < rev@.len()
                    ==> (#[trigger] rev@[r]) == s0[s0.len() - 1 - r],
                forall|c: int| 0 <= c < new_idx@.len() ==> match #[trigger] new_idx@[c] {
                    Some(j) => (j as int) < self.species@.len() && self.species@[j as int]
                        == s0[c] && s0[c].members@.len() >= 1,
                    None => s0[c].members@.len() == 0,
                },
                srcs.len() == self.species@.len(),
                forall|j: int| 0 <= j < srcs.len() ==> {
                    &&& 0 <= #[trigger] srcs[j] < new_idx@.len()
                    &&& new_idx@[srcs[j]] == Some(j as usize)
                    &&& self.species@[j] == s0[srcs[j]]
                },
                self.species@.len() <= new_idx@.len(),
                self.members@.map_values(|c: Container<G>| c.species) == p1,
                Self::same_members(old(self).members@, self.members@),
                self.survival_criteria == old(self).survival_criteria,
                self.parental_criteria == old(self).parental_criteria,
            decreases rev@.len(),
        {
            let ghost c = new_idx@.len() as int;
            let niche = rev.pop().unwrap();
            proof {
                assert(niche == s0[c]);
            }
            if niche.members.len() > 0 {
                proof {
                    srcs = srcs.push(c);
                }
                new_idx.push(Some(self.species.len()));
                self.species.push(niche);
            } else {
                new_idx.push(None);
            }
        }

        // Point every member at its niche's new position.
        let ghost n_idx = new_idx@;
        proof {
            assert(n_idx.len() == s0.len());
        }
        let mut m: usize = 0;
        while m < nm
            invariant
                m <= nm == self.members@.len(),
                n_idx == new_idx@,
                n_idx.len() == s0.len(),
                srcs.len() == self.species@.len(),
                forall|c: int| 0 <= c < n_idx.len() ==> match #[trigger] n_idx[c] {
                    Some(j) => (j as int) < self.species@.len() && self.species@[j as int]
                        == s0[c] && s0[c].members@.len() >= 1,
                    None => s0[c].members@.len() == 0,
                },
                forall|j: int| 0 <= j < srcs.len() ==> {
                    &&& 0 <= #[trigger] srcs[j] < n_idx.len()
                    &&& n_idx[srcs[j]] == Some(j as usize)
                    &&& self.species@[j] == s0[srcs[j]]
                },
                forall|mp: int| m <= mp < nm
                    ==> (#[trigger] self.members@[mp].species) == p1[mp],
                forall|mp: int| 0 <= mp < m
                    ==> (#[trigger] self.members@[mp].species)
                        == n_idx[p1[mp].unwrap() as int],
                Self::same_members(old(self).members@, self.members@),
                self.survival_criteria == old(self).survival_criteria,
                self.parental_criteria == old(self).parental_criteria,
            decreases nm - m,
        {
            let cur = self.members[m].species;
            if let Some(c) = cur {
                if c < new_idx.len() {
                    self.members[m].species = new_idx[c];
                }
            }
            m += 1;
        }

        proof {
            assert forall|mp: int| 0 <= mp < nm implies self.member_assigned(mp) by {
                let c = p1[mp].unwrap() as int;
                assert(s0[c].members@.contains(mp as usize));
                assert(s0[c].members@.len() >= 1);
                assert(n_idx[c] is Some);
            }
            assert forall|ii: int| 0 <= ii < self.species@.len() implies self.niche_ok(ii) by {
                let c = srcs[ii];
                assert(self.species@[ii] == s0[c]);
                assert(s0[c].members@.contains(s0[c].members@[0]));
                assert forall|k: int|
                    #![trigger self.species@[ii].members@[k]]
                    0 <= k < self.species@[ii].members@.len() implies
                    (self.species@[ii].members@[k] as int) < self.members@.len()
                    && self.members@[self.species@[ii].members@[k] as int].species
                        == Some(ii as usize) by {
                    assert(self.species@[ii].members@[k] == s0[c].members@[k]);
                    let e = s0[c].members@[k] as int;
                    assert(p1[e] == Some(c as usize));
                }
            }
            assert(self.speciated());
        }

        // Refresh each surviving niche's statistics.
        let ns = self.species.len();
        let ghost mut wits: Seq<int> = Seq::empty();
        let mut i: usize = 0;
        while i < ns
            invariant
                i <= ns == self.species@.len(),
                self.speciated(),
                self.members@.len() == nm,
                Self::same_members(old(self).members@, self.members@),
                self.species@.len() <= s0.len(),
                self.survival_criteria == old(self).survival_criteria,
                self.parental_criteria == old(self).parental_criteria,
                wits.len() == i,
                forall|j: int| 0 <= j < i ==> {
                    &&& 0 <= #[trigger] wits[j] < self.species@[j].members@.len()
                    &&& self.members@[self.species@[j].members@[wits[j]] as int].fitness_score
                        == self.species@[j].best_score
                },
                forall|j: int, k2: int|
                    #![trigger self.species@[j].members@[k2]]
                    0 <= j < i && 0 <= k2 < self.species@[j].members@.len()
                    ==> self.members@[self.species@[j].members@[k2] as int].fitness_score
                        <= self.species@[j].best_score,
            decreases ns - i,
        {
            // Best member fitness in this niche, and where it sits.
            let mut mx: u32 = 0;
            let mut wk: usize = 0;
            let mut k: usize = 0;
            let count = self.species[i].members.len();
            while k < count
                invariant
                    k <= count == self.species@[i as int].members@.len(),
                    i < self.species@.len(),
                    self.speciated(),
                    wk < count || wk == 0,
                    k == 0 ==> wk == 0 && mx == 0,
                    k > 0 ==> wk < k,
                    k > 0 ==> (self.members@[self.species@[i as int].members@[wk as int] as int]
                        .fitness_score == mx || (mx == 0 && self.members@[self.species@[
                        i as int].members@[wk as int] as int].fitness_score <= mx)),
                    forall|k2: int|
                        #![trigger self.species@[i as int].members@[k2]]
                        0 <= k2 < k ==> self.members@[self.species@[i as int].members@[
                        k2] as int].fitness_score <= mx,
                decreases count - k,
            {
                proof {
                    assert(self.niche_ok(i as int));
                }
                let idx = self.species[i].members[k];
                let f = self.members[idx].fitness_score;
                if f > mx {
                    mx = f;
                    wk = k;
                }
                k += 1;
            }
            proof {
                // the scan's maximum is attained: at the tracked index,
                // or at the first entry when the maximum is zero
                assert(self.niche_ok(i as int));
                if !(self.members@[self.species@[i as int].members@[wk as int] as int]
                    .fitness_score == mx) {
                    assert(mx == 0);
                    assert(self.members@[self.species@[i as int].members@[wk as int] as int]
                        .fitness_score <= 0);
                }
                wits = wits.push(wk as int);
            }
            let ghost pre = *self;
            let prev = self.species[i].best_score;
            if mx > prev {
                self.species[i].stagnation_age = 0;
            } else {
                let sa = self.species[i].stagnation_age;
                self.species[i].stagnation_age = if sa == u32::MAX {
                    sa
                } else {
                    sa + 1
                };
            }
            self.species[i].best_score = mx;
            let a = self.species[i].age;
            self.species[i].age = if a == u32::MAX {
                a
            } else {
                a + 1
            };
            proof {
                assert(forall|x: int| 0 <= x < self.species@.len()
                    ==> (#[trigger] self.species@[x].members@) == pre.species@[x].members@);
                assert(self.members@ == pre.members@);
                assert(forall|x: int| 0 <= x < self.species@.len() && x != i as int
                    ==> (#[trigger] self.species@[x].best_score) == pre.species@[x].best_score);
                assert(self.species@[i as int].best_score == mx);
                assert forall|mp: int| 0 <= mp < self.members@.len()
                    implies self.member_assigned(mp) by {
                    assert(pre.member_assigned(mp));
                }
                assert forall|x: int| 0 <= x < self.species@.len()
                    implies self.niche_ok(x) by {
                    assert(pre.niche_ok(x));
                }
            }
            i += 1;
        }
        proof {
            assert forall|i2: int| 0 <= i2 < self.species@.len()
                implies self.niche_scored(i2) by {
                let w = wits[i2];
                assert(0 <= w < self.species@[i2].members@.len());
                assert(self.species[i2].members[w] == self.species@[i2].members@[w]);
                assert(self.members[self.species[i2].members[w] as int].fitness_score
                    == self.species[i2].best_score);
            }
        }
    }

    /// The member count the next generation is filled to.
    pub open spec fn target_size(size: i32) -> int {
        if size >= 0 {
            size as int
        } else {
            0
        }
    }

    /// Some container in `out` carries, genome and score unchanged, a
    /// member of `orig` whose fitness no member of `orig` beats.
    pub open spec fn best_carried(orig: Seq<Container<G>>, out: Seq<Container<G>>) -> bool {
        exists|j: int, m: int| {
            &&& 0 <= j < out.len()
            &&& 0 <= m < orig.len()
            &&& out[j].member == orig[m].member
            &&& out[j].fitness_score == orig[m].fitness_score
            &&& forall|m2: int| 0 <= m2 < orig.len()
                  ==> (#[trigger] orig[m2].fitness_score) <= orig[m].fitness_score
        }
    }

    /// Niche `c`'s highest-fitness member is carried, genome and score
    /// unchanged, into `out`.
    pub open spec fn niche_best_carried(self, out: Seq<Container<G>>, c: int) -> bool {
        exists|j: int, m: int| {
            &&& 0 <= j < out.len()
            &&& 0 <= m < self.members.len()
            &&& out[j].member == self.members[m].member
            &&& out[j].fitness_score == self.members[m].fitness_score
            &&& self.members[m].species == Some(c as usize)
            &&& forall|k: int| 0 <= k < self.species[c].members@.len()
                  ==> self.members[#[trigger] self.species[c].members@[k] as int].fitness_score
                      <= self.members[m].fitness_score
        }
    }

    /// Build the next generation.
    ///
    /// Offspring slots are apportioned across the niches by adjusted
    /// fitness (largest remainder), so the new generation holds exactly
    /// `size` members.  Each niche's quota is filled first with its
    /// survivors under the survival criteria, then with children bred
    /// from parent pairs drawn under the parental criteria and the
    /// inbreed rate.  The niches carry over emptied, representatives
    /// and statistics preserved, ready for the next speciation.  Under
    /// `Fittest` survival the globally best member is carried over
    /// unchanged, and so is each niche's own best wherever the niche
    /// received a slot; the ghost result names the quota each niche
    /// was granted.  Returns `None` only on an empty generation.
    #[verifier::loop_isolation(false)]
    #[verifier::rlimit(100)]
    pub fn create_next_generation<E>(
        self,
        size: i32,
        config: &Config,
        env: &mut E,
        rng: &mut Rng,
    ) -> (r: (Option<Generation<G>>, Ghost<Seq<usize>>))
        where
            G: Genome<G, E> + Clone,
        requires
            self.speciated(),
            self.members@.len() <= 0x4000_0000,
            size <= 0x4000_0000,
        ensures
            r.0 is Some <==> self.members@.len() > 0,
            r.0 matches Some(g) ==> {
                &&& g.members@.len() == Self::target_size(size)
                &&& g.species@.len() == self.species@.len()
                &&& (forall|c: int|
                    #![trigger g.species@[c]]
                    0 <= c < g.species@.len() ==> {
                        &&& g.species@[c].representative == self.species@[c].representative
                        &&& g.species@[c].members@.len() == 0
                        &&& g.species@[c].age == self.species@[c].age
                        &&& g.species@[c].stagnation_age == self.species@[c].stagnation_age
                        &&& g.species@[c].best_score == self.species@[c].best_score
                    })
                &&& g.survival_criteria == self.survival_criteria
                &&& g.parental_criteria == self.parental_criteria
                &&& (self.survival_criteria == SurvivalCriteria::Fittest
                    && Self::target_size(size) >= 1
                    ==> Self::best_carried(self.members@, g.members@))
                &&& r.1@.len() == self.species@.len()
                &&& quota_total(r.1@) == Self::target_size(size)
                &&& (self.survival_criteria == SurvivalCriteria::Fittest ==> forall|c: int|
                    0 <= c < self.species@.len() && (#[trigger] r.1@[c]) >= 1
                        ==> self.niche_best_carried(g.members@, c))
            },
    {
        let nm = self.members.len();
        if nm == 0 {
            return (None, Ghost(Seq::empty()));
        }
        proof {
            assert(self.member_assigned(0));
            self.lemma_species_count();
        }
        let ns = self.species.len();
        let size_n: usize = if size < 0 {
            0
        } else {
            size as usize
        };

        // Adjusted-fitness weight of each niche.
        let mut weights: Vec<u128> = Vec::new();
        let mut i: usize = 0;
        while i < ns
            invariant
                weights@.len() == i <= ns,
                forall|j: int| 0 <= j < i
                    ==> (#[trigger] weights@[j]) <= 0x1_0000_0000_0000_0000u128,
            decreases ns - i,
        {
            proof {
                assert(self.niche_ok(i as int));
            }
            let cnt = self.species[i].members.len();
            let mut raw: u128 = 0;
            let mut k: usize = 0;
            while k < cnt
                invariant
                    k <= cnt,
                    i < ns,
                    cnt == self.species[i as int].members@.len(),
                    raw <= k * 0xFFFF_FFFFu128,
                decreases cnt - k,
            {
                proof {
                    assert(self.niche_ok(i as int));
                }
                let e = self.species[i].members[k];
                raw = raw + self.members[e].fitness_score as u128;
                k += 1;
            }
            proof {
                assert(cnt >= 1);
                assert(raw * 1000 <= cnt * 0x3E7_FFFF_FC18u128) by (nonlinear_arith)
                    requires
                        raw <= cnt * 0xFFFF_FFFFu128,
                        cnt >= 0,
                ;
                assert(cnt * 0x3E7_FFFF_FC18u128 <= 0xFFFF_FFFF_FFFF_FFFFu128
                    * 0x3E7_FFFF_FC18u128) by (nonlinear_arith)
                    requires
                        cnt <= 0xFFFF_FFFF_FFFF_FFFFu128,
                ;
                lemma_div_is_ordered(
                    raw as int * 1000,
                    cnt as int * 0x3E7_FFFF_FC18,
                    cnt as int,
                );
                lemma_div_multiples_vanish(0x3E7_FFFF_FC18, cnt as int);
            }
            let w: u128 = raw * 1000 / (cnt as u128);
            weights.push(w);
            i += 1;
        }
        let mut quotas = apportion(&weights, size_n);

        // The best member and the niche it sits in.
        let bm = match self.best_member() {
            Some((_, idx)) => idx,
            None => 0,
        };
        proof {
            assert(self.member_assigned(bm as int));
        }
        let bn = match self.members[bm].species {
            Some(c) => c,
            None => 0,
        };
        let is_fittest = match self.survival_criteria {
            SurvivalCriteria::Fittest => true,
            _ => false,
        };

        // Under elitism the best member's niche must get at least one
        // slot; steal one from the largest quota when it has none.
        if is_fittest && size_n >= 1 && quotas[bn] == 0 {
            let mut am: usize = 0;
            let mut j: usize = 1;
            while j < ns
                invariant
                    am < j <= ns == quotas@.len(),
                    forall|k: int| 0 <= k < j ==> (#[trigger] quotas@[k]) <= quotas@[am as int],
                decreases ns - j,
            {
                if quotas[j] > quotas[am] {
                    am = j;
                }
                j += 1;
            }
            proof {
                lemma_sum_bound(
                    quotas@.map_values(|x: usize| x as int),
                    quotas@[am as int] as int,
                );
                if quotas@[am as int] == 0 {
                    assert(quota_total(quotas@) <= ns * 0);
                    assert(false);
                }
                assert(am as int != bn as int);
            }
            let ghost pre1 = quotas@.map_values(|x: usize| x as int);
            let qa = quotas[am];
            quotas.set(am, qa - 1);
            proof {
                assert(quotas@.map_values(|x: usize| x as int)
                    =~= pre1.update(am as int, qa as int - 1));
                lemma_sum_update(pre1, am as int, qa as int - 1);
            }
            let ghost pre2 = quotas@.map_values(|x: usize| x as int);
            let qb = quotas[bn];
            quotas.set(bn, qb + 1);
            proof {
                assert(quotas@.map_values(|x: usize| x as int)
                    =~= pre2.update(bn as int, qb as int + 1));
                lemma_sum_update(pre2, bn as int, qb as int + 1);
            }
        }
        proof {
            assert(quota_total(quotas@) == size_n);
            assert(is_fittest && size_n >= 1 ==> quotas@[bn as int] >= 1);
        }

        // Survivors of each niche under the survival criteria.
        let mut survivors: Vec<Vec<usize>> = Vec::new();
        if is_fittest {
            let mut i: usize = 0;
            while i < ns
                invariant
                    is_fittest,
                    survivors@.len() == i <= ns,
                    forall|j: int|
                        #![trigger survivors@[j]]
                        0 <= j < i ==> {
                            &&& survivors@[j]@.len() == 1
                            &&& (survivors@[j]@[0] as int) < nm
                            &&& self.members@[survivors@[j]@[0] as int].species
                                == Some(j as usize)
                            &&& (forall|k2: int| 0 <= k2 < self.species@[j].members@.len()
                                ==> self.members[#[trigger] self.species@[j].members@[
                                k2] as int].fitness_score
                                    <= self.members@[survivors@[j]@[0] as int].fitness_score)
                            &&& (j == bn as int ==> forall|m2: int| 0 <= m2 < nm
                                ==> (#[trigger] self.members@[m2].fitness_score)
                                    <= self.members@[survivors@[j]@[0] as int].fitness_score)
                        },
                decreases ns - i,
            {
                let (b, _) = self.best_two(i);
                proof {
                    assert(self.niche_ok(i as int));
                    let kb = choose|kb: int| 0 <= kb < self.species[i as int].members@.len()
                        && self.species[i as int].members@[kb] == b;
                    assert(self.members@[b as int].species == Some(i as usize));
                    if i as int == bn as int {
                        // the niche of the global best: its best entry
                        // matches the global maximum
                        let km = choose|km: int|
                            0 <= km < self.species[bn as int].members@.len()
                                && self.species[bn as int].members@[km] == bm;
                        assert(self.species[bn as int].members@[km] == bm);
                        assert(self.members[bm as int].fitness_score
                            <= self.members[b as int].fitness_score);
                        assert(forall|m2: int| 0 <= m2 < nm
                            ==> (#[trigger] self.members@[m2].fitness_score)
                                <= self.members@[b as int].fitness_score);
                    }
                }
                let mut one: Vec<usize> = Vec::new();
                one.push(b);
                survivors.push(one);
                i += 1;
            }
        } else {
            let mut used: Vec<bool> = Vec::new();
            let mut m: usize = 0;
            while m < nm
                invariant
                    used@.len() == m <= nm,
                decreases nm - m,
            {
                used.push(false);
                m += 1;
            }
            let mut i: usize = 0;
            while i < ns
                invariant
                    survivors@.len() == i <= ns,
                    forall|j: int| 0 <= j < i ==> (#[trigger] survivors@[j])@.len() == 0,
                decreases ns - i,
            {
                survivors.push(Vec::new());
                i += 1;
            }
            let topn: usize = match self.survival_criteria {
                SurvivalCriteria::TopN(n) => n,
                _ => 0,
            };
            let kk: usize = if topn < nm {
                topn
            } else {
                nm
            };
            let mut t: usize = 0;
            while t < kk
                invariant
                    t <= kk,
                    used@.len() == nm,
                    survivors@.len() == ns,
                    forall|j: int, u: int| 0 <= j < ns && 0 <= u < survivors@[j]@.len()
                        ==> ((#[trigger] survivors@[j]@[u]) as int) < nm,
                decreases kk - t,
            {
                let mut am: usize = nm;
                let mut m: usize = 0;
                while m < nm
                    invariant
                        m <= nm,
                        used@.len() == nm,
                        am == nm || (am as int) < nm,
                    decreases nm - m,
                {
                    if !used[m] && (am == nm
                        || self.members[m].fitness_score > self.members[am].fitness_score) {
                        am = m;
                    }
                    m += 1;
                }
                if am < nm {
                    used.set(am, true);
                    proof {
                        assert(self.member_assigned(am as int));
                    }
                    let c = match self.members[am].species {
                        Some(c) => c,
                        None => 0,
                    };
                    survivors[c].push(am);
                }
                t += 1;
            }
        }
        proof {
            assert(survivors@.len() == ns);
            assert(forall|j: int, u: int| 0 <= j < ns && 0 <= u < survivors@[j]@.len()
                ==> ((#[trigger] survivors@[j]@[u]) as int) < nm);
        }

        // Breed the children each niche needs beyond its survivors.
        let ghost q_ints = quotas@.map_values(|x: usize| x as int);
        let mut children: Vec<Vec<Container<G>>> = Vec::new();
        let mut i: usize = 0;
        while i < ns
            invariant
                children@.len() == i <= ns,
                quotas@.len() == ns,
                survivors@.len() == ns,
                q_ints == quotas@.map_values(|x: usize| x as int),
                forall|j: int|
                    #![trigger children@[j]]
                    0 <= j < i ==> children@[j]@.len() == (if q_ints[j]
                        <= survivors@[j]@.len() {
                        0int
                    } else {
                        q_ints[j] - survivors@[j]@.len()
                    }) && (forall|u: int| 0 <= u < children@[j]@.len() ==> {
                        &&& (#[trigger] children@[j]@[u]).fitness_score == 0
                        &&& children@[j]@[u].species is None
                    }),
            decreases ns - i,
        {
            let q = quotas[i];
            let svl = survivors[i].len();
            let need: usize = if q > svl {
                q - svl
            } else {
                0
            };
            let mut ch: Vec<Container<G>> = Vec::new();
            let mut t: usize = 0;
            while t < need
                invariant
                    t <= need,
                    i < ns,
                    ch@.len() == t,
                    forall|u: int| 0 <= u < t ==> {
                        &&& (#[trigger] ch@[u]).fitness_score == 0
                        &&& ch@[u].species is None
                    },
                decreases need - t,
            {
                let c = self.breed_child(i, config, env, rng);
                ch.push(c);
                t += 1;
            }
            children.push(ch);
            i += 1;
        }

        // From here on the old generation is taken apart: its niches
        // carry over emptied, and its containers become slots that the
        // survivors are moved out of.
        let ghost g0 = self;
        let Generation { members, mut species, survival_criteria, parental_criteria } = self;
        let mut c: usize = 0;
        while c < species.len()
            invariant
                c <= species@.len(),
                species@.len() == ns,
                forall|j: int|
                    #![trigger species@[j]]
                    0 <= j < ns ==> {
                        &&& species@[j].representative == g0.species@[j].representative
                        &&& species@[j].age == g0.species@[j].age
                        &&& species@[j].stagnation_age == g0.species@[j].stagnation_age
                        &&& species@[j].best_score == g0.species@[j].best_score
                    },
                forall|j: int|
                    #![trigger species@[j]]
                    0 <= j < c ==> species@[j].members@.len() == 0,
            decreases species@.len() - c,
        {
            species[c].members = Vec::new();
            c += 1;
        }
        let mut tmp = members;
        let mut rev: Vec<Container<G>> = Vec::new();
        while tmp.len() > 0
            invariant
                tmp@.len() + rev@.len() == nm,
                tmp@ == g0.members@.subrange(0, tmp@.len() as int),
                forall|r2: int| 0 <= r2 < rev@.len()
                    ==> (#[trigger] rev@[r2]) == g0.members@[nm - 1 - r2],
            decreases tmp@.len(),
        {
            let cont = tmp.pop().unwrap();
            proof {
                assert(cont == g0.members@[tmp@.len() as int]);
                assert(tmp@ =~= g0.members@.subrange(0, tmp@.len() as int));
            }
            rev.push(cont);
        }
        let mut slots: Vec<Option<Container<G>>> = Vec::new();
        while rev.len() > 0
            invariant
                slots@.len() + rev@.len() == nm,
                forall|r2: int| 0 <= r2 < rev@.len()
                    ==> (#[trigger] rev@[r2]) == g0.members@[nm - 1 - r2],
                forall|mp: int| 0 <= mp < slots@.len()
                    ==> (#[trigger] slots@[mp]) == Some(g0.members@[mp]),
            decreases rev@.len(),
        {
            let cont = rev.pop().unwrap();
            proof {
                assert(cont == g0.members@[slots@.len() as int]);
            }
            slots.push(Some(cont));
        }

        // Assemble: survivors first in each niche's quota, children
        // after, so every niche contributes exactly its quota.
        let mut new_members: Vec<Container<G>> = Vec::new();
        let ghost mut have_best: bool = false;
        let ghost mut best_j: int = 0;
        let ghost mut best_m: int = 0;
        let ghost mut wjs: Seq<int> = Seq::empty();
        let ghost mut wms: Seq<int> = Seq::empty();
        let mut i: usize = 0;
        while i < ns
            invariant
                i <= ns,
                quotas@.len() == ns,
                survivors@.len() == ns,
                children@.len() == ns,
                slots@.len() == nm,
                species@.len() == ns,
                q_ints == quotas@.map_values(|x: usize| x as int),
                new_members@.len() == sum_int(q_ints.subrange(0, i as int)),
                forall|j: int|
                    #![trigger children@[j]]
                    i <= j < ns ==> children@[j]@.len() == (if q_ints[j]
                        <= survivors@[j]@.len() {
                        0int
                    } else {
                        q_ints[j] - survivors@[j]@.len()
                    }),
                is_fittest ==> forall|mp: int|
                    #![trigger slots@[mp]]
                    0 <= mp < nm && (g0.members@[mp].species.unwrap() as int) >= i
                        ==> slots@[mp] == Some(g0.members@[mp]),
                is_fittest && size_n >= 1 && i > bn as int ==> have_best,
                have_best ==> {
                    &&& 0 <= best_j < new_members@.len()
                    &&& 0 <= best_m < nm
                    &&& new_members@[best_j].member == g0.members@[best_m].member
                    &&& new_members@[best_j].fitness_score == g0.members@[best_m].fitness_score
                    &&& forall|m2: int| 0 <= m2 < nm
                        ==> (#[trigger] g0.members@[m2].fitness_score)
                            <= g0.members@[best_m].fitness_score
                },
                wjs.len() == i,
                wms.len() == i,
                is_fittest ==> forall|c: int| 0 <= c < i && q_ints[c] >= 1 ==> {
                    &&& 0 <= #[trigger] wjs[c] < new_members@.len()
                    &&& 0 <= wms[c] < nm
                    &&& new_members@[wjs[c]].member == g0.members@[wms[c]].member
                    &&& new_members@[wjs[c]].fitness_score == g0.members@[wms[c]].fitness_score
                    &&& g0.members@[wms[c]].species == Some(c as usize)
                    &&& wms[c] == survivors@[c]@[0] as int
                },
            decreases ns - i,
        {
            let ghost mut cur_j: int = -1;
            let ghost mut cur_m: int = -1;
            let q = quotas[i];
            let svl = survivors[i].len();
            let mut filled: usize = 0;
            while filled < q && filled < svl
                invariant
                    filled <= q,
                    filled <= svl,
                    i < ns,
                    svl == survivors@[i as int]@.len(),
                    q == quotas@[i as int],
                    slots@.len() == nm,
                    new_members@.len() == sum_int(q_ints.subrange(0, i as int)) + filled,
                    is_fittest ==> forall|mp: int|
                        #![trigger slots@[mp]]
                        0 <= mp < nm && (g0.members@[mp].species.unwrap() as int) > i
                            ==> slots@[mp] == Some(g0.members@[mp]),
                    is_fittest ==> svl == 1,
                    is_fittest && filled == 0
                        ==> slots@[survivors@[i as int]@[0] as int]
                            == Some(g0.members@[survivors@[i as int]@[0] as int]),
                    is_fittest && size_n >= 1
                        && (i > bn as int || (i == bn as int && filled > 0))
                        ==> have_best,
                    have_best ==> {
                        &&& 0 <= best_j < new_members@.len()
                        &&& 0 <= best_m < nm
                        &&& new_members@[best_j].member == g0.members@[best_m].member
                        &&& new_members@[best_j].fitness_score
                            == g0.members@[best_m].fitness_score
                        &&& forall|m2: int| 0 <= m2 < nm
                            ==> (#[trigger] g0.members@[m2].fitness_score)
                                <= g0.members@[best_m].fitness_score
                    },
                    wjs.len() == i,
                    wms.len() == i,
                    is_fittest ==> forall|c: int| 0 <= c < i && q_ints[c] >= 1 ==> {
                        &&& 0 <= #[trigger] wjs[c] < new_members@.len()
                        &&& 0 <= wms[c] < nm
                        &&& new_members@[wjs[c]].member == g0.members@[wms[c]].member
                        &&& new_members@[wjs[c]].fitness_score
                            == g0.members@[wms[c]].fitness_score
                        &&& g0.members@[wms[c]].species == Some(c as usize)
                        &&& wms[c] == survivors@[c]@[0] as int
                    },
                    is_fittest && filled > 0 ==> {
                        &&& 0 <= cur_j < new_members@.len()
                        &&& 0 <= cur_m < nm
                        &&& new_members@[cur_j].member == g0.members@[cur_m].member
                        &&& new_members@[cur_j].fitness_score
                            == g0.members@[cur_m].fitness_score
                        &&& g0.members@[cur_m].species == Some(i as usize)
                        &&& cur_m == survivors@[i as int]@[0] as int
                    },
                decreases q - filled,
            {
                let e = survivors[i][filled];
                let got = take_slot(&mut slots, e);
                match got {
                    Some(cont) => {
                        let mut cont = cont;
                        cont.species = None;
                        proof {
                            if is_fittest && size_n >= 1 && i == bn as int && filled == 0 {
                                have_best = true;
                                best_j = new_members@.len() as int;
                                best_m = e as int;
                            }
                            if is_fittest && filled == 0 {
                                cur_j = new_members@.len() as int;
                                cur_m = e as int;
                            }
                        }
                        new_members.push(cont);
                    },
                    None => {
                        proof {
                            if is_fittest {
                                assert(false);
                            }
                        }
                        let rep = species[i].representative.clone();
                        new_members.push(Container::from_member(rep));
                    },
                }
                filled += 1;
            }
            let mut ch: Vec<Container<G>> = Vec::new();
            core::mem::swap(&mut ch, &mut children[i]);
            while ch.len() > 0
                invariant
                    i < ns,
                    filled + ch@.len() == q,
                    q == quotas@[i as int],
                    slots@.len() == nm,
                    new_members@.len() == sum_int(q_ints.subrange(0, i as int)) + filled,
                    is_fittest ==> forall|mp: int|
                        #![trigger slots@[mp]]
                        0 <= mp < nm && (g0.members@[mp].species.unwrap() as int) > i
                            ==> slots@[mp] == Some(g0.members@[mp]),
                    is_fittest && size_n >= 1
                        && (i > bn as int || (i == bn as int && q > 0))
                        ==> have_best,
                    have_best ==> {
                        &&& 0 <= best_j < new_members@.len()
                        &&& 0 <= best_m < nm
                        &&& new_members@[best_j].member == g0.members@[best_m].member
                        &&& new_members@[best_j].fitness_score
                            == g0.members@[best_m].fitness_score
                        &&& forall|m2: int| 0 <= m2 < nm
                            ==> (#[trigger] g0.members@[m2].fitness_score)
                                <= g0.members@[best_m].fitness_score
                    },
                    wjs.len() == i,
                    wms.len() == i,
                    is_fittest ==> forall|c: int| 0 <= c < i && q_ints[c] >= 1 ==> {
                        &&& 0 <= #[trigger] wjs[c] < new_members@.len()
                        &&& 0 <= wms[c] < nm
                        &&& new_members@[wjs[c]].member == g0.members@[wms[c]].member
                        &&& new_members@[wjs[c]].fitness_score
                            == g0.members@[wms[c]].fitness_score
                        &&& g0.members@[wms[c]].species == Some(c as usize)
                        &&& wms[c] == survivors@[c]@[0] as int
                    },
                    is_fittest && q >= 1 ==> {
                        &&& 0 <= cur_j < new_members@.len()
                        &&& 0 <= cur_m < nm
                        &&& new_members@[cur_j].member == g0.members@[cur_m].member
                        &&& new_members@[cur_j].fitness_score
                            == g0.members@[cur_m].fitness_score
                        &&& g0.members@[cur_m].species == Some(i as usize)
                        &&& cur_m == survivors@[i as int]@[0] as int
                    },
                decreases ch@.len(),
            {
                let cont = ch.pop().unwrap();
                new_members.push(cont);
                filled += 1;
            }
            proof {
                lemma_sum_prefix_step(q_ints, i as int);
                if is_fittest && size_n >= 1 && i == bn as int {
                    assert(quotas@[bn as int] >= 1);
                }
                wjs = wjs.push(cur_j);
                wms = wms.push(cur_m);
            }
            i += 1;
        }
        proof {
            assert(q_ints.subrange(0, ns as int) =~= q_ints);
            assert(new_members@.len() == size_n);
            if is_fittest && size_n >= 1 {
                assert(have_best);
                assert(Self::best_carried(g0.members@, new_members@));
            }
            if is_fittest {
                assert forall|c: int| 0 <= c < ns && q_ints[c] >= 1
                    implies g0.niche_best_carried(new_members@, c) by {
                    let j = wjs[c];
                    let m = wms[c];
                    assert(m == survivors@[c]@[0] as int);
                    assert(forall|k2: int| 0 <= k2 < g0.species@[c].members@.len()
                        ==> g0.members[#[trigger] g0.species@[c].members@[k2] as int]
                            .fitness_score <= g0.members@[m].fitness_score);
                }
            }
        }

        (
            Some(Generation { members: new_members, species, survival_criteria, parental_criteria }),
            Ghost(quotas@),
        )
    }

    /// Pick one parent from a niche under the parental criteria.  The
    /// result is always listed by that niche.
    fn pick_from(&self, niche: usize, rng: &mut Rng) -> (r: usize)
        requires
            self.speciated(),
            (niche as int) < self.species@.len(),
        ensures
            self.species[niche as int].members@.contains(r),
            (r as int) < self.members@.len(),
    {
        proof {
            assert(self.niche_ok(niche as int));
        }
        let cnt = self.species[niche].members.len();
        match self.parental_criteria {
            ParentalCriteria::UniformRandom => {
                let k = rng.index_below(cnt);
                let e = self.species[niche].members[k];
                proof {
                    assert(self.species[niche as int].members@[k as int] == e);
                }
                e
            },
            ParentalCriteria::BestInSpecies => {
                let (b, _) = self.best_two(niche);
                b
            },
            ParentalCriteria::BiasedRandom => {
                // Total raw fitness of the niche, saturating; a zero
                // total falls back to a uniform draw.
                let mut tot: u64 = 0;
                let mut k: usize = 0;
                while k < cnt
                    invariant
                        k <= cnt,
                        self.speciated(),
                        (niche as int) < self.species@.len(),
                        cnt == self.species[niche as int].members@.len(),
                    decreases cnt - k,
                {
                    proof {
                        assert(self.niche_ok(niche as int));
                    }
                    let e = self.species[niche].members[k];
                    let f = self.members[e].fitness_score as u64;
                    tot = if tot > u64::MAX - f {
                        u64::MAX
                    } else {
                        tot + f
                    };
                    k += 1;
                }
                if tot == 0 {
                    let k = rng.index_below(cnt);
                    let e = self.species[niche].members[k];
                    proof {
                        assert(self.species[niche as int].members@[k as int] == e);
                    }
                    e
                } else {
                    // Walk the cumulative fitness until the drawn point
                    // falls inside a member's share.
                    let t = rng.below(tot);
                    let mut acc: u64 = 0;
                    let mut k: usize = 0;
                    while k < cnt
                        invariant
                            k <= cnt,
                            self.speciated(),
                            (niche as int) < self.species@.len(),
                            cnt == self.species[niche as int].members@.len(),
                            cnt >= 1,
                        decreases cnt - k,
                    {
                        proof {
                            assert(self.niche_ok(niche as int));
                        }
                        let e = self.species[niche].members[k];
                        let f = self.members[e].fitness_score as u64;
                        acc = if acc > u64::MAX - f {
                            u64::MAX
                        } else {
                            acc + f
                        };
                        if t < acc {
                            proof {
                                assert(self.species[niche as int].members@[k as int] == e);
                            }
                            return e;
                        }
                        k += 1;
                    }
                    let e = self.species[niche].members[cnt - 1];
                    proof {
                        assert(self.niche_ok(niche as int));
                        assert(self.species[niche as int].members@[cnt - 1] == e);
                    }
                    e
                }
            },
        }
    }

    /// The best and second-best members of a niche by fitness; in a
    /// niche of one, both are that member.  The second result tops
    /// every entry other than the position the first was taken from.
    fn best_two(&self, niche: usize) -> (r: (usize, usize))
        requires
            self.speciated(),
            (niche as int) < self.species@.len(),
        ensures
            self.species[niche as int].members@.contains(r.0),
            self.species[niche as int].members@.contains(r.1),
            (r.0 as int) < self.members@.len(),
            (r.1 as int) < self.members@.len(),
            forall|k: int| 0 <= k < self.species[niche as int].members@.len()
                ==> self.members[#[trigger] self.species[niche as int].members@[k] as int]
                    .fitness_score <= self.members[r.0 as int].fitness_score,
            self.species[niche as int].members@.len() == 1 ==> r.1 == r.0,
            self.species[niche as int].members@.len() >= 2 ==> exists|kb: int, ks: int| {
                &&& 0 <= kb < self.species[niche as int].members@.len()
                &&& 0 <= ks < self.species[niche as int].members@.len()
                &&& kb != ks
                &&& self.species[niche as int].members@[kb] == r.0
                &&& self.species[niche as int].members@[ks] == r.1
                &&& forall|k: int| 0 <= k < self.species[niche as int].members@.len() && k != kb
                    ==> self.members[#[trigger] self.species[niche as int].members@[k] as int]
                        .fitness_score <= self.members[r.1 as int].fitness_score
            },
    {
        proof {
            assert(self.niche_ok(niche as int));
        }
        let cnt = self.species[niche].members.len();
        let mut bk: usize = 0;
        let mut sk: usize = 0;
        let mut k: usize = 1;
        while k < cnt
            invariant
                self.speciated(),
                (niche as int) < self.species@.len(),
                cnt == self.species[niche as int].members@.len(),
                cnt >= 1,
                bk < k <= cnt,
                sk < k,
                k == 1 ==> bk == 0 && sk == 0,
                k >= 2 ==> sk != bk,
                forall|j: int| 0 <= j < k
                    ==> self.members[#[trigger] self.species[niche as int].members@[j] as int]
                        .fitness_score
                        <= self.members[self.species[niche as int].members@[bk as int] as int]
                        .fitness_score,
                k >= 2 ==> forall|j: int| 0 <= j < k && j != bk as int
                    ==> self.members[#[trigger] self.species[niche as int].members@[j] as int]
                        .fitness_score
                        <= self.members[self.species[niche as int].members@[sk as int] as int]
                        .fitness_score,
            decreases cnt - k,
        {
            proof {
                assert(self.niche_ok(niche as int));
            }
            let e = self.species[niche].members[k];
            let b = self.species[niche].members[bk];
            if self.members[e].fitness_score > self.members[b].fitness_score {
                sk = bk;
                bk = k;
            } else {
                let s = self.species[niche].members[sk];
                if self.members[e].fitness_score > self.members[s].fitness_score || sk == bk {
                    sk = k;
                }
            }
            k += 1;
        }
        let b = self.species[niche].members[bk];
        let s = self.species[niche].members[sk];
        proof {
            if cnt >= 2 {
                assert(self.species[niche as int].members@[bk as int] == b);
                assert(self.species[niche as int].members@[sk as int] == s);
                assert(bk as int != sk as int);
            }
            assert(self.niche_ok(niche as int));
            assert(self.species[niche as int].members@[bk as int] == b);
            assert(self.species[niche as int].members@[sk as int] == s);
        }
        (b, s)
    }

    /// Pick the two parents for one child of a niche.
    ///
    /// With probability `inbreed_rate` (in thousandths) the second
    /// parent comes from a uniformly chosen other niche; otherwise both
    /// parents come from the niche being filled.  A rate of zero never
    /// crosses niches; a rate of one thousand always does when a second
    /// niche exists.
    fn pick_pair(&self, niche: usize, config: &Config, rng: &mut Rng) -> (p: (usize, usize))
        requires
            self.speciated(),
            (niche as int) < self.species@.len(),
        ensures
            self.species[niche as int].members@.contains(p.0),
            (p.0 as int) < self.members@.len(),
            (p.1 as int) < self.members@.len(),
            config.inbreed_rate == 0 ==> self.species[niche as int].members@.contains(p.1),
            config.inbreed_rate >= 1000 && self.species@.len() >= 2 ==> exists|c: int|
                0 <= c < self.species@.len() && c != niche as int
                    && (#[trigger] self.species[c].members@).contains(p.1),
    {
        let cross = rng.chance(config.inbreed_rate);
        if cross && self.species.len() >= 2 {
            let p1 = self.pick_from(niche, rng);
            let o = rng.index_below(self.species.len() - 1);
            let other = if o >= niche {
                o + 1
            } else {
                o
            };
            let p2 = self.pick_from(other, rng);
            proof {
                assert(other as int != niche as int);
                assert(self.species[other as int].members@.contains(p2));
            }
            (p1, p2)
        } else {
            match self.parental_criteria {
                ParentalCriteria::BestInSpecies => self.best_two(niche),
                _ => {
                    let p1 = self.pick_from(niche, rng);
                    let p2 = self.pick_from(niche, rng);
                    (p1, p2)
                },
            }
        }
    }

    /// Breed one child for a niche: select parents, attempt crossover a
    /// bounded number of times, and fall back to cloning the first
    /// parent when the encoding keeps refusing the pair.
    fn breed_child<E>(&self, niche: usize, config: &Config, env: &mut E, rng: &mut Rng) -> (c:
        Container<G>)
        where
            G: Genome<G, E> + Clone,
        requires
            self.speciated(),
            (niche as int) < self.species@.len(),
        ensures
            c.fitness_score == 0,
            c.species is None,
    {
        let (p1, p2) = self.pick_pair(niche, config, rng);
        let mut child: Option<G> = G::crossover(
            &self.members[p1].member,
            &self.members[p2].member,
            env,
            config.crossover_rate,
        );
        let mut tries: usize = 0;
        while tries < 3 && child.is_none()
            invariant
                tries <= 3,
                (p1 as int) < self.members@.len(),
                (p2 as int) < self.members@.len(),
            decreases 3 - tries,
        {
            child = G::crossover(
                &self.members[p1].member,
                &self.members[p2].member,
                env,
                config.crossover_rate,
            );
            tries += 1;
        }
        match child {
            Some(g) => Container::from_member(g),
            None => Container::from_member(self.members[p1].member.clone()),
        }
    }

    /// A speciated generation never has more niches than members: each
    /// niche is nonempty and no member sits in two niches.
    pub proof fn lemma_species_count(self)
        requires
            self.speciated(),
        ensures
            self.species@.len() <= self.members@.len(),
    {
        let s = self.species@.len() as int;
        let n = self.members@.len() as int;
        assert(self.species.len() == self.species@.len());
        assert(s <= usize::MAX);
        let f = |j: int| self.species[j].members[0] as int;
        let x = set_int_range(0, s);
        let y = x.map(f);
        lemma_int_range(0, s);
        assert(x.finite());
        assert forall|j: int| x.contains(j) implies 0 <= #[trigger] f(j) < n
            && self.members[f(j)].species == Some(j as usize) by {
            assert(self.niche_ok(j));
            assert(f(j) == self.species[j].members[0] as int);
            assert(self.species[j].members.len() >= 1);
            assert((self.species[j].members[0] as int) < self.members.len()
                && self.members[self.species[j].members[0] as int].species
                    == Some(j as usize));
        }
        assert(injective_on(f, x)) by {
            assert forall|j1: int, j2: int|
                #![trigger x.contains(j1), x.contains(j2)]
                x.contains(j1) && x.contains(j2) && f(j1) == f(j2)
                implies j1 == j2 by {
                assert(0 <= j1 < s);
                assert(0 <= j2 < s);
                assert(0 <= f(j1) < n && self.members[f(j1)].species == Some(j1 as usize));
                assert(0 <= f(j2) < n && self.members[f(j2)].species == Some(j2 as usize));
                assert((j1 as usize) == (j2 as usize));
            }
        }
        lemma_map_size(x, y, f);
        let rng = set_int_range(0, n);
        lemma_int_range(0, n);
        assert(rng.finite());
        assert(y.subset_of(rng)) by {
            assert forall|e: int| y.contains(e) implies rng.contains(e) by {
                let j = choose|j: int| x.contains(j) && e == #[trigger] f(j);
                assert(0 <= f(j) < n);
            }
        }
        lemma_len_subset(y, rng);
    }
}

/// Relies on std's `format!` machinery to render the niche summary
/// text.
#[verifier::external_body]
fn render_niche_info(best: u32, age: u32, count: usize) -> String {
    format!("Niche => best score: {} | age: {} | members: {}", best, age, count)
}

/// Move the container out of slot `i`, leaving `None` behind.
fn take_slot<G>(slots: &mut Vec<Option<Container<G>>>, i: usize) -> (r: Option<Container<G>>)
    requires
        i < old(slots)@.len(),
    ensures
        r == old(slots)@[i as int],
        final(slots)@.len() == old(slots)@.len(),
        final(slots)@[i as int] is None,
        forall|j: int| 0 <= j < old(slots)@.len() && j != i
            ==> final(slots)@[j] == old(slots)@[j],
{
    let mut c: Option<Container<G>> = None;
    core::mem::swap(&mut c, &mut slots[i]);
    c
}

/// The index of the first niche whose representative accepts the
/// candidate under `threshold`, if any.
fn first_accepting<G, E>(
    species: &Vec<Niche<G>>,
    candidate: &G,
    threshold: u32,
    env: &mut E,
) -> (r: Option<usize>)
    where
        G: Genome<G, E>,
    ensures
        r matches Some(c) ==> (c as int) < species@.len(),
{
    let mut i: usize = 0;
    while i < species.len()
        invariant
            i <= species@.len(),
        decreases species@.len() - i,
    {
        if species[i].accepts(candidate, env, threshold) {
            return Some(i);
        }
        i += 1;
    }
    None
}

/// Relies on rayon's `par_iter_mut` and `ParallelIterator::for_each`:
/// each element of the vector is handed to the closure exactly once, in
/// parallel, and the vector's length and layout are untouched.  The
/// closure stores the problem's score in the container's fitness field
/// and leaves the species assignment alone.
#[verifier::external_body]
fn evaluate_all<G, P>(members: &mut Vec<Container<G>>, problem: &P)
    where
        G: Send,
        P: Problem<G> + Sync,
    ensures
        final(members).len() == old(members).len(),
        forall|m: int| 0 <= m < old(members).len()
            ==> (#[trigger] final(members)[m].species) == old(members)[m].species,
{
    members.par_iter_mut().for_each(|c: &mut Container<G>| {
        c.fitness_score = problem.solve(&mut c.member);
    });
}

} // verus!
