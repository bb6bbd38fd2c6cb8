//! Genocide operators: diversity-restoring transformations applied to a
//! generation when the population stagnates.
//!
//! Every operator leaves the generation unspeciated (species
//! assignments cleared); the population re-speciates before breeding.
//! Fractions are expressed in thousandths (`0..=1000`).

use vstd::prelude::*;
use vstd::set_lib::{lemma_int_range, lemma_len_subset, set_int_range};

use crate::generation::{Container, Generation, Niche};
use crate::rng::Rng;

verus! {

/// A diversity-restoring operator over a generation.
#[derive(Clone, Copy, PartialEq, Eq, Structural, Debug)]
pub enum Genocide {
    /// Remove the bottom fraction (in thousandths) of members by fitness.
    KillWorst(u32),
    /// Delete the `n` species with the highest age, members included.
    KillOldestSpecies(usize),
    /// Remove a uniform-random fraction (in thousandths) of members.
    KillRandom(u32),
    /// Remove the species whose stagnation age has reached the given
    /// threshold, members included.
    KillStaleSpecies(u32),
}

/// How many members a fraction in thousandths selects out of `len`.
pub open spec fn frac_count(len: int, f: u32) -> int {
    len * (if f > 1000 { 1000int } else { f as int }) / 1000
}

impl Genocide {
    /// What one application of this operator guarantees: the relation
    /// between the generation before and after `kill`.  The member
    /// count never grows, the result is unspeciated with its selection
    /// policies kept, and each variant pins its own effect — the two
    /// fraction killers remove an exact member count, with the worst
    /// killer sparing a member of top fitness; the age killer removes
    /// exactly `n` species yet spares one of minimal age; the staleness
    /// killer removes exactly the stale species.
    pub open spec fn kill_rel<G>(self, before: Generation<G>, after: Generation<G>) -> bool {
        &&& after.members@.len() <= before.members@.len()
        &&& after.unspeciated()
        &&& after.survival_criteria == before.survival_criteria
        &&& after.parental_criteria == before.parental_criteria
        &&& (self matches Genocide::KillWorst(f) ==> {
            &&& after.members@.len()
                == before.members@.len() - frac_count(before.members@.len() as int, f)
            &&& (after.members@.len() >= 1 ==> exists|j: int, m: int| {
                &&& 0 <= j < after.members@.len()
                &&& 0 <= m < before.members@.len()
                &&& after.members@[j].fitness_score == before.members@[m].fitness_score
                &&& forall|m2: int| 0 <= m2 < before.members@.len()
                    ==> (#[trigger] before.members@[m2].fitness_score)
                        <= before.members@[m].fitness_score
            })
        })
        &&& (self matches Genocide::KillRandom(f) ==> after.members@.len()
            == before.members@.len() - frac_count(before.members@.len() as int, f))
        &&& (self matches Genocide::KillOldestSpecies(n) ==> {
            &&& after.species@.len() == before.species@.len() - (
            if n as int <= before.species@.len() {
                n as int
            } else {
                before.species@.len() as int
            })
            &&& (after.species@.len() >= 1 ==> exists|j: int, m: int| {
                &&& 0 <= j < after.species@.len()
                &&& 0 <= m < before.species@.len()
                &&& after.species@[j].age == before.species@[m].age
                &&& forall|m2: int| 0 <= m2 < before.species@.len()
                    ==> before.species@[m].age <= (#[trigger] before.species@[m2].age)
            })
        })
        &&& (self matches Genocide::KillStaleSpecies(age) ==> {
            &&& after.species@.len() == before.species@.len() - Set::new(
                |c: int|
                    0 <= c < before.species@.len() && before.species@[c].stagnation_age
                        >= age,
            ).len()
            &&& forall|c: int| 0 <= c < after.species@.len()
                ==> (#[trigger] after.species@[c].stagnation_age) < age
        })
    }

    /// Apply this operator; the before/after pair satisfies
    /// [`Genocide::kill_rel`].
    pub fn kill<G>(&self, gen: &mut Generation<G>, rng: &mut Rng)
        ensures
            self.kill_rel(*old(gen), *final(gen)),
    {
        match self {
            Genocide::KillWorst(f) => kill_worst(gen, *f),
            Genocide::KillRandom(f) => kill_random(gen, *f, rng),
            Genocide::KillOldestSpecies(n) => kill_oldest(gen, *n),
            Genocide::KillStaleSpecies(age) => kill_stale(gen, *age),
        }
    }
}

/// The number of members a fraction selects, computed exactly.
fn exec_frac_count(len: usize, f: u32) -> (k: usize)
    ensures
        k == frac_count(len as int, f),
        k <= len,
{
    let ff: u32 = if f > 1000 {
        1000
    } else {
        f
    };
    proof {
        assert(len as int * ff as int / 1000 <= len as int) by (nonlinear_arith)
            requires
                0 <= ff <= 1000,
                len >= 0,
        ;
        assert(len as int * ff as int >= 0) by (nonlinear_arith)
            requires
                len >= 0,
                ff >= 0,
        ;
    }
    (len as u128 * ff as u128 / 1000) as usize
}

/// Remove the `frac_count` lowest-fitness members, one minimum at a
/// time so ties resolve toward the earlier index.  A member attaining
/// the generation's best fitness always survives when anyone does.
#[verifier::loop_isolation(false)]
fn kill_worst<G>(gen: &mut Generation<G>, f: u32)
    ensures
        final(gen).members@.len()
            == old(gen).members@.len() - frac_count(old(gen).members@.len() as int, f),
        final(gen).unspeciated(),
        final(gen).survival_criteria == old(gen).survival_criteria,
        final(gen).parental_criteria == old(gen).parental_criteria,
        final(gen).members@.len() >= 1 ==> exists|j: int, m: int| {
            &&& 0 <= j < final(gen).members@.len()
            &&& 0 <= m < old(gen).members@.len()
            &&& final(gen).members@[j].fitness_score == old(gen).members@[m].fitness_score
            &&& forall|m2: int| 0 <= m2 < old(gen).members@.len()
                ==> (#[trigger] old(gen).members@[m2].fitness_score)
                    <= old(gen).members@[m].fitness_score
        },
{
    let len = gen.members.len();
    let k = exec_frac_count(len, f);
    // where the best fitness sits, so its value can be tracked through
    // the removals
    let mut w: usize = 0;
    let mut j0: usize = 1;
    while j0 < len
        invariant
            len == gen.members@.len(),
            w < j0 <= len || (len == 0 && w == 0 && j0 == 1),
            forall|j2: int| 0 <= j2 < j0 && j2 < len
                ==> (#[trigger] gen.members@[j2].fitness_score)
                    <= gen.members@[w as int].fitness_score,
        decreases len - j0,
    {
        if gen.members[j0].fitness_score > gen.members[w].fitness_score {
            w = j0;
        }
        j0 += 1;
    }
    let ghost w0: int = w as int;
    let ghost mv: u32 = if len >= 1 {
        gen.members@[w0].fitness_score
    } else {
        0
    };
    let ghost mut wit: int = w0;
    let mut t: usize = 0;
    while t < k
        invariant
            t <= k <= len,
            gen.members@.len() == len - t,
            gen.survival_criteria == old(gen).survival_criteria,
            gen.parental_criteria == old(gen).parental_criteria,
            forall|j2: int| 0 <= j2 < gen.members@.len()
                ==> (#[trigger] gen.members@[j2].fitness_score) <= mv,
            gen.members@.len() >= 1 ==> 0 <= wit < gen.members@.len()
                && gen.members@[wit].fitness_score == mv,
        decreases k - t,
    {
        let mut mi: usize = 0;
        let mut j: usize = 1;
        while j < gen.members.len()
            invariant
                gen.members@.len() == len - t,
                t < k <= len,
                mi < j <= gen.members@.len(),
                forall|j2: int| 0 <= j2 < j
                    ==> gen.members@[mi as int].fitness_score
                        <= (#[trigger] gen.members@[j2].fitness_score),
            decreases gen.members@.len() - j,
        {
            if gen.members[j].fitness_score < gen.members[mi].fitness_score {
                mi = j;
            }
            j += 1;
        }
        let ghost pre = gen.members@;
        gen.members.remove(mi);
        proof {
            if gen.members@.len() >= 1 {
                if wit == mi as int {
                    // the removed minimum attained the maximum, so every
                    // member left equals it; point at the first
                    assert(pre[mi as int].fitness_score == mv);
                    assert(gen.members@[0].fitness_score <= mv);
                    if 0 < mi as int {
                        assert(gen.members@[0] == pre[0]);
                        assert(pre[mi as int].fitness_score <= pre[0].fitness_score);
                    } else {
                        assert(gen.members@[0] == pre[1]);
                        assert(pre[mi as int].fitness_score <= pre[1].fitness_score);
                    }
                    wit = 0;
                } else if wit > mi as int {
                    assert(gen.members@[wit - 1] == pre[wit]);
                    wit = wit - 1;
                } else {
                    assert(gen.members@[wit] == pre[wit]);
                }
            }
        }
        t += 1;
    }
    let ghost kept = gen.members@;
    gen.clear_assignments();
    proof {
        if gen.members@.len() >= 1 {
            assert(gen.members@[wit].member == kept[wit].member);
            assert(gen.members@[wit].fitness_score == kept[wit].fitness_score);
            assert(forall|m2: int| 0 <= m2 < old(gen).members@.len()
                ==> (#[trigger] old(gen).members@[m2].fitness_score)
                    <= old(gen).members@[w0].fitness_score);
            assert(gen.members@[wit].fitness_score == old(gen).members@[w0].fitness_score);
        }
    }
}

/// Remove a uniform-random `frac_count` of the members.
fn kill_random<G>(gen: &mut Generation<G>, f: u32, rng: &mut Rng)
    ensures
        final(gen).members@.len()
            == old(gen).members@.len() - frac_count(old(gen).members@.len() as int, f),
        final(gen).unspeciated(),
        final(gen).survival_criteria == old(gen).survival_criteria,
        final(gen).parental_criteria == old(gen).parental_criteria,
{
    let len = gen.members.len();
    let k = exec_frac_count(len, f);
    let mut t: usize = 0;
    while t < k
        invariant
            t <= k <= len,
            gen.members@.len() == len - t,
            gen.survival_criteria == old(gen).survival_criteria,
            gen.parental_criteria == old(gen).parental_criteria,
        decreases k - t,
    {
        let v = rng.index_below(gen.members.len());
        gen.members.remove(v);
        t += 1;
    }
    gen.clear_assignments();
}

/// Mark the `n` oldest species doomed, then drop them and the members
/// assigned to them.  A niche of minimal age always survives when any
/// niche does.
#[verifier::loop_isolation(false)]
fn kill_oldest<G>(gen: &mut Generation<G>, n: usize)
    ensures
        final(gen).species@.len()
            == old(gen).species@.len() - (if n as int <= old(gen).species@.len() {
            n as int
        } else {
            old(gen).species@.len() as int
        }),
        final(gen).members@.len() <= old(gen).members@.len(),
        final(gen).unspeciated(),
        final(gen).survival_criteria == old(gen).survival_criteria,
        final(gen).parental_criteria == old(gen).parental_criteria,
        final(gen).species@.len() >= 1 ==> exists|j: int, m: int| {
            &&& 0 <= j < final(gen).species@.len()
            &&& 0 <= m < old(gen).species@.len()
            &&& final(gen).species@[j].age == old(gen).species@[m].age
            &&& forall|m2: int| 0 <= m2 < old(gen).species@.len()
                ==> old(gen).species@[m].age <= (#[trigger] old(gen).species@[m2].age)
        },
{
    let ns = gen.species.len();
    let kk: usize = if n <= ns {
        n
    } else {
        ns
    };
    let mut doomed: Vec<bool> = Vec::new();
    let mut i: usize = 0;
    while i < ns
        invariant
            doomed@.len() == i <= ns,
            gen == old(gen),
            forall|c: int| 0 <= c < i ==> !(#[trigger] doomed@[c]),
        decreases ns - i,
    {
        doomed.push(false);
        i += 1;
    }
    // where the youngest niche sits, so the survivor witness can be
    // tracked through the marking
    let mut ymin: usize = 0;
    let mut y0: usize = 1;
    while y0 < ns
        invariant
            ymin < y0 <= ns || (ns == 0 && ymin == 0 && y0 == 1),
            forall|c: int| 0 <= c < y0 && c < ns
                ==> gen.species@[ymin as int].age <= (#[trigger] gen.species@[c].age),
        decreases ns - y0,
    {
        if gen.species[y0].age < gen.species[ymin].age {
            ymin = y0;
        }
        y0 += 1;
    }
    let ghost minv: u32 = if ns >= 1 {
        gen.species@[ymin as int].age
    } else {
        0
    };
    let ghost mut ywit: int = ymin as int;
    let ghost mut marked: Set<int> = Set::empty();
    let mut t: usize = 0;
    while t < kk
        invariant
            t <= kk <= ns == gen.species@.len(),
            doomed@.len() == ns,
            gen == old(gen),
            marked.finite(),
            marked.len() == t,
            forall|c: int| marked.contains(c) ==> 0 <= c < ns,
            forall|c: int| 0 <= c < ns ==> ((#[trigger] doomed@[c]) <==> marked.contains(c)),
            kk < ns ==> 0 <= ywit < ns && !doomed@[ywit] && gen.species@[ywit].age == minv,
        decreases kk - t,
    {
        // oldest niche not yet doomed
        let mut am: usize = ns;
        let mut j: usize = 0;
        while j < ns
            invariant
                j <= ns == gen.species@.len() == doomed@.len(),
                am == ns || (am < ns && !doomed@[am as int]),
                am <= ns,
                forall|c: int| 0 <= c < j && !(#[trigger] doomed@[c]) ==> am < ns
                    && gen.species@[c].age <= gen.species@[am as int].age,
            decreases ns - j,
        {
            if !doomed[j] && (am == ns || gen.species[j].age > gen.species[am].age) {
                am = j;
            }
            j += 1;
        }
        if am == ns {
            proof {
                assert forall|c: int| set_int_range(0, ns as int).contains(c)
                    implies marked.contains(c) by {
                    assert(doomed@[c]);
                }
                lemma_int_range(0, ns as int);
                lemma_len_subset(set_int_range(0, ns as int), marked);
                assert(false);
            }
        } else {
            proof {
                if kk < ns && ywit == am as int {
                    // the marked maximum was also the minimum: every
                    // niche still standing has the same age, and one
                    // other niche always still stands
                    let with_am = marked.insert(am as int);
                    assert(with_am.len() <= t + 1);
                    if set_int_range(0, ns as int).subset_of(with_am) {
                        lemma_int_range(0, ns as int);
                        lemma_len_subset(set_int_range(0, ns as int), with_am);
                        assert(false);
                    }
                    let c2 = choose|c2: int|
                        set_int_range(0, ns as int).contains(c2) && !with_am.contains(c2);
                    assert(c2 != am as int);
                    assert(!doomed@[c2]);
                    assert(gen.species@[c2].age <= gen.species@[am as int].age);
                    assert(minv <= gen.species@[c2].age);
                    assert(gen.species@[c2].age == minv);
                    ywit = c2;
                }
            }
            doomed.set(am, true);
            proof {
                assert(!marked.contains(am as int));
                marked = marked.insert(am as int);
            }
        }
        t += 1;
    }
    proof {
        assert(Set::new(|c: int| 0 <= c < doomed@.len() && doomed@[c]) =~= marked);
    }
    let survivors_from = remove_doomed(gen, &doomed);
    proof {
        if kk < ns {
            let j2 = choose|j2: int|
                0 <= j2 < survivors_from@.len() && #[trigger] survivors_from@[j2] == ywit;
            assert(gen.species@[j2].age == old(gen).species@[ywit].age);
            assert(old(gen).species@[ywit].age == minv);
            assert(forall|m2: int| 0 <= m2 < ns
                ==> minv <= (#[trigger] old(gen).species@[m2].age));
        }
    }
}

/// Drop the species whose stagnation age has reached `age`, and the
/// members assigned to them.
fn kill_stale<G>(gen: &mut Generation<G>, age: u32)
    ensures
        forall|c: int| 0 <= c < final(gen).species@.len()
            ==> (#[trigger] final(gen).species@[c].stagnation_age) < age,
        final(gen).members@.len() <= old(gen).members@.len(),
        final(gen).species@.len() == old(gen).species@.len() - Set::new(
            |c: int|
                0 <= c < old(gen).species@.len() && old(gen).species@[c].stagnation_age >= age,
        ).len(),
        final(gen).unspeciated(),
        final(gen).survival_criteria == old(gen).survival_criteria,
        final(gen).parental_criteria == old(gen).parental_criteria,
{
    let ns = gen.species.len();
    let mut doomed: Vec<bool> = Vec::new();
    let mut i: usize = 0;
    while i < ns
        invariant
            doomed@.len() == i <= ns == gen.species@.len(),
            gen == old(gen),
            forall|c: int| 0 <= c < i
                ==> (#[trigger] doomed@[c]) == (gen.species@[c].stagnation_age >= age),
        decreases ns - i,
    {
        doomed.push(gen.species[i].stagnation_age >= age);
        i += 1;
    }
    let ghost dset = Set::new(|c: int| 0 <= c < doomed@.len() && doomed@[c]);
    proof {
        lemma_int_range(0, ns as int);
        assert(dset.subset_of(set_int_range(0, ns as int)));
        lemma_len_subset(dset, set_int_range(0, ns as int));
        assert(dset =~= Set::new(
            |c: int|
                0 <= c < old(gen).species@.len() && old(gen).species@[c].stagnation_age
                    >= age,
        ));
    }
    let from = remove_doomed(gen, &doomed);
    proof {
        assert forall|c: int| 0 <= c < gen.species@.len()
            implies (#[trigger] gen.species@[c].stagnation_age) < age by {
            let cc = from@[c];
            assert(!doomed@[cc]);
            assert(old(gen).species@[cc].stagnation_age < age);
        }
    }
}

/// Remove every doomed niche and the members assigned to one, then
/// clear all remaining assignments.  The returned ghost sequence names,
/// for each surviving niche, the index it came from.
#[verifier::loop_isolation(false)]
fn remove_doomed<G>(gen: &mut Generation<G>, doomed: &Vec<bool>) -> (from: Ghost<Seq<int>>)
    requires
        doomed@.len() == old(gen).species@.len(),
        Set::new(|c: int| 0 <= c < doomed@.len() && doomed@[c]).len()
            <= old(gen).species@.len(),
    ensures
        final(gen).members@.len() <= old(gen).members@.len(),
        final(gen).species@.len() == old(gen).species@.len() - Set::new(
            |c: int| 0 <= c < doomed@.len() && doomed@[c],
        ).len(),
        from@.len() == final(gen).species@.len(),
        forall|j: int| 0 <= j < from@.len() ==> {
            &&& 0 <= #[trigger] from@[j] < doomed@.len()
            &&& !doomed@[from@[j]]
            &&& final(gen).species@[j].stagnation_age
                == old(gen).species@[from@[j]].stagnation_age
            &&& final(gen).species@[j].age == old(gen).species@[from@[j]].age
        },
        forall|c: int| 0 <= c < doomed@.len() && !doomed@[c]
            ==> exists|j: int| 0 <= j < from@.len() && #[trigger] from@[j] == c,
        final(gen).unspeciated(),
        final(gen).survival_criteria == old(gen).survival_criteria,
        final(gen).parental_criteria == old(gen).parental_criteria,
{
    let ns = gen.species.len();
    let nm = gen.members.len();
    let ghost s0 = gen.species@;
    let ghost dset = Set::new(|c: int| 0 <= c < doomed@.len() && doomed@[c]);
    // members of doomed niches go; unassigned members stay
    let mut keep_rev: Vec<Container<G>> = Vec::new();
    while gen.members.len() > 0
        invariant
            gen.species@ == s0,
            keep_rev@.len() <= nm - gen.members@.len(),
            gen.members@.len() <= nm,
            gen.survival_criteria == old(gen).survival_criteria,
            gen.parental_criteria == old(gen).parental_criteria,
        decreases gen.members@.len(),
    {
        let c = gen.members.pop().unwrap();
        let keep = match c.species {
            Some(s) => {
                if s < doomed.len() {
                    !doomed[s]
                } else {
                    true
                }
            },
            None => true,
        };
        if keep {
            keep_rev.push(c);
        }
    }
    while keep_rev.len() > 0
        invariant
            gen.species@ == s0,
            gen.members@.len() + keep_rev@.len() <= nm,
            gen.survival_criteria == old(gen).survival_criteria,
            gen.parental_criteria == old(gen).parental_criteria,
        decreases keep_rev@.len(),
    {
        let c = keep_rev.pop().unwrap();
        gen.members.push(c);
    }
    // doomed niches go
    let mut sp_rev: Vec<Niche<G>> = Vec::new();
    while gen.species.len() > 0
        invariant
            sp_rev@.len() + gen.species@.len() == ns,
            gen.species@ == s0.subrange(0, gen.species@.len() as int),
            forall|r: int| 0 <= r < sp_rev@.len()
                ==> (#[trigger] sp_rev@[r]) == s0[ns - 1 - r],
            gen.members@.len() <= nm,
            gen.survival_criteria == old(gen).survival_criteria,
            gen.parental_criteria == old(gen).parental_criteria,
        decreases gen.species@.len(),
    {
        let niche = gen.species.pop().unwrap();
        proof {
            assert(niche == s0[gen.species@.len() as int]);
            assert(gen.species@ =~= s0.subrange(0, gen.species@.len() as int));
        }
        sp_rev.push(niche);
    }
    let ghost mut seen_doomed: Set<int> = Set::empty();
    let ghost mut srcs: Seq<int> = Seq::empty();
    let mut ci: usize = 0;
    while ci < ns
        invariant
            ns == doomed@.len(),
            ci + sp_rev@.len() == ns,
            forall|r: int| 0 <= r < sp_rev@.len()
                ==> (#[trigger] sp_rev@[r]) == s0[ns - 1 - r],
            seen_doomed.finite(),
            seen_doomed =~= Set::new(|c: int| 0 <= c < ci && doomed@[c]),
            gen.species@.len() + seen_doomed.len() == ci,
            srcs.len() == gen.species@.len(),
            forall|j: int| 0 <= j < srcs.len() ==> {
                &&& 0 <= #[trigger] srcs[j] < ns
                &&& !doomed@[srcs[j]]
                &&& gen.species@[j] == s0[srcs[j]]
            },
            forall|c: int| 0 <= c < ci && !doomed@[c]
                ==> exists|j: int| 0 <= j < srcs.len() && #[trigger] srcs[j] == c,
            gen.members@.len() <= nm,
            gen.survival_criteria == old(gen).survival_criteria,
            gen.parental_criteria == old(gen).parental_criteria,
        decreases ns - ci,
    {
        let niche = sp_rev.pop().unwrap();
        proof {
            assert(niche == s0[ci as int]);
        }
        if !doomed[ci] {
            gen.species.push(niche);
            proof {
                let ghost pre_srcs = srcs;
                srcs = srcs.push(ci as int);
                assert(Set::new(|c: int| 0 <= c < ci + 1 && doomed@[c]) =~= seen_doomed);
                assert(srcs[srcs.len() - 1] == ci as int);
                assert forall|c: int| 0 <= c < ci + 1 && !doomed@[c]
                    implies exists|j: int| 0 <= j < srcs.len() && #[trigger] srcs[j] == c by {
                    if c < ci {
                        let j0 = choose|j0: int| 0 <= j0 < pre_srcs.len()
                            && pre_srcs[j0] == c;
                        assert(srcs[j0] == c);
                    } else {
                        assert(srcs[srcs.len() - 1] == c);
                    }
                }
            }
        } else {
            proof {
                assert(!seen_doomed.contains(ci as int));
                seen_doomed = seen_doomed.insert(ci as int);
                assert(Set::new(|c: int| 0 <= c < ci + 1 && doomed@[c]) =~= seen_doomed);
            }
        }
        ci += 1;
    }
    proof {
        assert(seen_doomed =~= dset);
    }
    let ghost kept = gen.species@;
    let ghost srcs_final = srcs;
    gen.clear_assignments();
    proof {
        assert(s0 == old(gen).species@);
        assert forall|j: int| 0 <= j < srcs_final.len() implies {
            &&& 0 <= #[trigger] srcs_final[j] < doomed@.len()
            &&& !doomed@[srcs_final[j]]
            &&& gen.species@[j].stagnation_age
                == old(gen).species@[srcs_final[j]].stagnation_age
            &&& gen.species@[j].age == old(gen).species@[srcs_final[j]].age
        } by {
            assert(kept[j] == s0[srcs_final[j]]);
            assert(gen.species@[j].stagnation_age == kept[j].stagnation_age);
            assert(gen.species@[j].age == kept[j].age);
        }
    }
    Ghost(srcs)
}

} // verus!
