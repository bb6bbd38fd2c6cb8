//! Largest-remainder apportionment of offspring quotas.
//!
//! Each niche receives a share of the next generation proportional to
//! its weight (its total adjusted fitness).  Slots are allocated by the
//! largest-remainder method, so the quotas always sum exactly to the
//! requested size.

use vstd::prelude::*;
use vstd::arithmetic::div_mod::{lemma_fundamental_div_mod, lemma_mod_bound};
use vstd::set_lib::{lemma_int_range, lemma_len_subset, set_int_range};

verus! {

/// Sum of a sequence of integers.
pub open spec fn sum_int(s: Seq<int>) -> int
    decreases s.len(),
{
    if s.len() == 0 {
        0
    } else {
        sum_int(s.drop_last()) + s.last()
    }
}

/// The quotas of a vector, viewed as mathematical integers.
pub open spec fn quota_total(q: Seq<usize>) -> int {
    sum_int(q.map_values(|x: usize| x as int))
}

/// The weights of a vector, viewed as mathematical integers.
pub open spec fn weight_total(w: Seq<u128>) -> int {
    sum_int(w.map_values(|x: u128| x as int))
}

pub proof fn lemma_sum_push(s: Seq<int>, x: int)
    ensures
        sum_int(s.push(x)) == sum_int(s) + x,
{
    assert(s.push(x).drop_last() =~= s);
    assert(s.push(x).last() == x);
}

pub proof fn lemma_sum_update(s: Seq<int>, i: int, x: int)
    requires
        0 <= i < s.len(),
    ensures
        sum_int(s.update(i, x)) == sum_int(s) - s[i] + x,
    decreases s.len(),
{
    if i == s.len() - 1 {
        assert(s.update(i, x).drop_last() =~= s.drop_last());
    } else {
        assert(s.update(i, x).drop_last() =~= s.drop_last().update(i, x));
        lemma_sum_update(s.drop_last(), i, x);
    }
}

/// Every element of a nonnegative sequence is at most the sum.
pub proof fn lemma_sum_elem_le(s: Seq<int>, i: int)
    requires
        0 <= i < s.len(),
        forall|j: int| 0 <= j < s.len() ==> s[j] >= 0,
    ensures
        s[i] <= sum_int(s),
    decreases s.len(),
{
    if i == s.len() - 1 {
        lemma_sum_nonneg(s.drop_last());
    } else {
        lemma_sum_elem_le(s.drop_last(), i);
    }
}

pub proof fn lemma_sum_nonneg(s: Seq<int>)
    requires
        forall|j: int| 0 <= j < s.len() ==> s[j] >= 0,
    ensures
        sum_int(s) >= 0,
    decreases s.len(),
{
    if s.len() > 0 {
        lemma_sum_nonneg(s.drop_last());
    }
}

/// A sequence bounded element-wise by `b` sums to at most `len * b`.
pub proof fn lemma_sum_bound(s: Seq<int>, b: int)
    requires
        forall|j: int| 0 <= j < s.len() ==> s[j] <= b,
    ensures
        sum_int(s) <= s.len() * b,
    decreases s.len(),
{
    if s.len() == 0 {
    } else {
        lemma_sum_bound(s.drop_last(), b);
        assert(s.len() * b == (s.len() - 1) * b + b) by (nonlinear_arith);
    }
}

/// The exact proportional share of niche `i`, rounded down: the floor
/// every quota sits on.  A zero total weight shares uniformly.
pub open spec fn base_quota(w: Seq<u128>, size: int, i: int) -> int {
    if weight_total(w) == 0 {
        size / (w.len() as int)
    } else {
        size * (w[i] as int) / weight_total(w)
    }
}

/// Apportion `size` offspring slots across niches in proportion to
/// their weights, by largest remainder.  The quotas sum exactly to
/// `size`, and each quota is its niche's exact share rounded down,
/// plus at most one remainder slot.  A weight vector that sums to zero
/// is treated as uniform.
pub fn apportion(weights: &Vec<u128>, size: usize) -> (q: Vec<usize>)
    requires
        weights@.len() >= 1,
        weights@.len() <= 0x4000_0000,
        size <= 0x4000_0000,
        forall|i: int| 0 <= i < weights@.len()
            ==> (#[trigger] weights@[i]) <= 0x1_0000_0000_0000_0000,
    ensures
        q@.len() == weights@.len(),
        quota_total(q@) == size,
        forall|i: int| 0 <= i < q@.len()
            ==> base_quota(weights@, size as int, i) <= (#[trigger] q@[i]) as int
                <= base_quota(weights@, size as int, i) + 1,
{
    let n = weights.len();
    // Total weight.
    let mut total: u128 = 0;
    let mut i: usize = 0;
    while i < n
        invariant
            i <= n == weights@.len(),
            forall|j: int| 0 <= j < n
                ==> (#[trigger] weights@[j]) <= 0x1_0000_0000_0000_0000,
            total == weight_total(weights@.subrange(0, i as int)),
            total <= i * 0x1_0000_0000_0000_0000,
        decreases n - i,
    {
        proof {
            let pre = weights@.subrange(0, i as int).map_values(|x: u128| x as int);
            let post = weights@.subrange(0, i as int + 1).map_values(|x: u128| x as int);
            assert(post =~= pre.push(weights@[i as int] as int));
            lemma_sum_push(pre, weights@[i as int] as int);
        }
        total = total + weights[i];
        i += 1;
    }
    proof {
        assert(weights@.subrange(0, n as int) =~= weights@);
    }

    if total == 0 {
        // Uniform split: base slots for everyone, one extra for the
        // first `size % n` niches.
        let base = size / n;
        let rem = size % n;
        proof {
            lemma_fundamental_div_mod(size as int, n as int);
            lemma_mod_bound(size as int, n as int);
        }
        let mut q: Vec<usize> = Vec::new();
        let mut i: usize = 0;
        while i < n
            invariant
                i <= n,
                n >= 1,
                size <= 0x4000_0000,
                base == size as int / n as int,
                rem == size as int % n as int,
                rem < n,
                size == n * base + rem,
                base <= size,
                q@.len() == i,
                quota_total(q@) == i * base + (if i <= rem { i as int } else { rem as int }),
                forall|j: int| 0 <= j < i ==> (#[trigger] q@[j]) == base + (if j < rem {
                    1int
                } else {
                    0int
                }),
            decreases n - i,
        {
            let ghost pre = q@.map_values(|x: usize| x as int);
            let add: usize = if i < rem {
                base + 1
            } else {
                base
            };
            q.push(add);
            proof {
                assert(q@.map_values(|x: usize| x as int) =~= pre.push(add as int));
                lemma_sum_push(pre, add as int);
                assert((i + 1) * base == i * base + base) by (nonlinear_arith);
            }
            i += 1;
        }
        proof {
            assert(quota_total(q@) == n * base + rem);
            assert(weight_total(weights@) == 0);
            assert forall|i2: int| 0 <= i2 < n implies base_quota(weights@, size as int, i2)
                <= (#[trigger] q@[i2]) as int <= base_quota(weights@, size as int, i2) + 1 by {
                assert(q@[i2] == base + (if i2 < rem {
                    1int
                } else {
                    0int
                }));
            }
        }
        return q;
    }

    // Proportional base quotas with remainders.
    let mut q: Vec<usize> = Vec::new();
    let mut rems: Vec<u128> = Vec::new();
    let mut qsum: usize = 0;
    let ghost w = weights@.map_values(|x: u128| x as int);
    let mut i: usize = 0;
    while i < n
        invariant
            i <= n == weights@.len(),
            w == weights@.map_values(|x: u128| x as int),
            forall|j: int| 0 <= j < n
                ==> (#[trigger] weights@[j]) <= 0x1_0000_0000_0000_0000,
            total > 0,
            total == weight_total(weights@),
            total <= 0x4000_0000 * 0x1_0000_0000_0000_0000,
            size <= 0x4000_0000,
            q@.len() == i,
            rems@.len() == i,
            forall|j: int| 0 <= j < i ==> (#[trigger] rems@[j]) < total,
            qsum == quota_total(q@),
            qsum <= size,
            forall|j: int| 0 <= j < i ==> (#[trigger] q@[j]) <= size,
            forall|j: int| 0 <= j < i ==> (#[trigger] q@[j]) as int
                == size * (weights@[j] as int) / (total as int),
            total * quota_total(q@) + sum_int(rems@.map_values(|x: u128| x as int))
                == size * sum_int(w.subrange(0, i as int)),
        decreases n - i,
    {
        proof {
            lemma_sum_elem_le(w, i as int);
            assert(size * weights@[i as int] <= 0x4000_0000 * 0x1_0000_0000_0000_0000)
                by (nonlinear_arith)
                requires
                    size <= 0x4000_0000,
                    0 <= weights@[i as int] <= 0x1_0000_0000_0000_0000,
            ;
        }
        let prod: u128 = (size as u128) * weights[i];
        let b: u128 = prod / total;
        let r: u128 = prod % total;
        proof {
            lemma_fundamental_div_mod(prod as int, total as int);
            lemma_mod_bound(prod as int, total as int);
            // b <= size, because weights[i] <= total.
            assert(b <= size) by (nonlinear_arith)
                requires
                    total > 0,
                    prod == size * weights@[i as int],
                    0 <= weights@[i as int] <= total,
                    b == prod as int / total as int,
                    prod == total * b + r,
                    0 <= r < total,
            ;
        }
        let ghost pre_q = q@.map_values(|x: usize| x as int);
        let ghost pre_r = rems@.map_values(|x: u128| x as int);
        q.push(b as usize);
        rems.push(r);
        qsum = qsum + (b as usize);
        proof {
            assert(q@.map_values(|x: usize| x as int) =~= pre_q.push(b as int));
            assert(rems@.map_values(|x: u128| x as int) =~= pre_r.push(r as int));
            lemma_sum_push(pre_q, b as int);
            lemma_sum_push(pre_r, r as int);
            assert(w.subrange(0, i as int + 1) =~= w.subrange(0, i as int).push(
                weights@[i as int] as int));
            lemma_sum_push(w.subrange(0, i as int), weights@[i as int] as int);
            assert(total * (sum_int(pre_q) + b) == total * sum_int(pre_q) + total * b)
                by (nonlinear_arith);
            assert(size * (sum_int(w.subrange(0, i as int)) + weights@[i as int])
                == size * sum_int(w.subrange(0, i as int)) + size * weights@[i as int])
                by (nonlinear_arith);
            // New partial quota sum still at most size.
            let sq = sum_int(pre_q) + b;
            let sr = sum_int(pre_r) + r;
            let sw = sum_int(w.subrange(0, i as int + 1));
            lemma_sum_nonneg(rems@.map_values(|x: u128| x as int));
            assert(forall|j: int| 0 <= j < w.len() ==> #[trigger] w[j] >= 0);
            assert(sw <= sum_int(w)) by {
                lemma_sum_prefix_le(w, i as int + 1);
            }
            assert(sw >= 0) by {
                assert(forall|j: int| 0 <= j < w.subrange(0, i as int + 1).len()
                    ==> #[trigger] w.subrange(0, i as int + 1)[j] >= 0);
                lemma_sum_nonneg(w.subrange(0, i as int + 1));
            }
            assert(sq <= size) by (nonlinear_arith)
                requires
                    total > 0,
                    total * sq + sr == size * sw,
                    sr >= 0,
                    sq >= 0,
                    0 <= sw <= total,
                    size >= 0,
            ;
        }
        i += 1;
    }
    proof {
        assert(w.subrange(0, n as int) =~= w);
    }

    // Distribute the deficit, one slot at a time, to the niche with the
    // largest remainder still standing.
    let deficit = size - qsum;
    proof {
        // total * deficit equals the remainder sum, which is less than
        // n * total, so the deficit is less than n.
        let sr = sum_int(rems@.map_values(|x: u128| x as int));
        lemma_sum_bound(rems@.map_values(|x: u128| x as int), total as int - 1);
        assert(deficit < n) by (nonlinear_arith)
            requires
                total > 0,
                n >= 1,
                total * (qsum as int) + sr == size * (total as int),
                deficit == size - qsum,
                sr <= n * (total as int - 1),
                qsum <= size,
        ;
    }
    let ghost bases = q@;
    let mut bumped: Vec<bool> = Vec::new();
    let mut b0: usize = 0;
    while b0 < n
        invariant
            bumped@.len() == b0 <= n,
            forall|c: int| 0 <= c < b0 ==> !(#[trigger] bumped@[c]),
        decreases n - b0,
    {
        bumped.push(false);
        b0 += 1;
    }
    let ghost mut marked: Set<int> = Set::empty();
    let mut t: usize = 0;
    while t < deficit
        invariant
            t <= deficit,
            deficit < n,
            size <= 0x4000_0000,
            deficit == size - qsum,
            q@.len() == n,
            rems@.len() == n,
            bumped@.len() == n,
            bases.len() == n,
            n >= 1,
            quota_total(q@) == qsum + t,
            marked.finite(),
            marked.len() == t,
            forall|c: int| marked.contains(c) ==> 0 <= c < n,
            forall|c: int| 0 <= c < n ==> ((#[trigger] bumped@[c]) <==> marked.contains(c)),
            forall|j: int| 0 <= j < n ==> (#[trigger] q@[j]) as int == bases[j] as int + (
            if bumped@[j] {
                1int
            } else {
                0int
            }),
            forall|j: int| 0 <= j < n ==> (#[trigger] bases[j]) <= size,
        decreases deficit - t,
    {
        // The largest remainder among the niches not yet granted an
        // extra slot.
        let mut bi: usize = n;
        let mut j: usize = 0;
        while j < n
            invariant
                j <= n == rems@.len() == bumped@.len(),
                bi == n || (bi < n && !bumped@[bi as int]),
                forall|c: int| 0 <= c < j && !(#[trigger] bumped@[c]) ==> bi < n,
            decreases n - j,
        {
            if !bumped[j] && (bi == n || rems[j] > rems[bi]) {
                bi = j;
            }
            j += 1;
        }
        if bi == n {
            proof {
                // fewer extra slots than niches, so one is always free
                assert forall|c: int| set_int_range(0, n as int).contains(c)
                    implies marked.contains(c) by {
                    assert(bumped@[c]);
                }
                lemma_int_range(0, n as int);
                lemma_len_subset(set_int_range(0, n as int), marked);
                assert(false);
            }
        } else {
            let ghost pre_q = q@.map_values(|x: usize| x as int);
            let qb = q[bi];
            q.set(bi, qb + 1);
            bumped.set(bi, true);
            proof {
                assert(q@.map_values(|x: usize| x as int)
                    =~= pre_q.update(bi as int, qb as int + 1));
                lemma_sum_update(pre_q, bi as int, qb as int + 1);
                assert(!marked.contains(bi as int));
                marked = marked.insert(bi as int);
            }
        }
        t += 1;
    }
    proof {
        assert(weight_total(weights@) == total);
        assert forall|i2: int| 0 <= i2 < n implies base_quota(weights@, size as int, i2)
            <= (#[trigger] q@[i2]) as int <= base_quota(weights@, size as int, i2) + 1 by {
            assert(bases[i2] as int == size * (weights@[i2] as int) / (total as int));
        }
    }
    q
}

/// One more element extends a prefix sum by exactly that element.
pub proof fn lemma_sum_prefix_step(s: Seq<int>, i: int)
    requires
        0 <= i < s.len(),
    ensures
        sum_int(s.subrange(0, i + 1)) == sum_int(s.subrange(0, i)) + s[i],
{
    assert(s.subrange(0, i + 1).drop_last() =~= s.subrange(0, i));
    assert(s.subrange(0, i + 1).last() == s[i]);
}

/// A prefix of a nonnegative sequence sums to at most the whole.
pub proof fn lemma_sum_prefix_le(s: Seq<int>, i: int)
    requires
        0 <= i <= s.len(),
        forall|j: int| 0 <= j < s.len() ==> s[j] >= 0,
    ensures
        sum_int(s.subrange(0, i)) <= sum_int(s),
    decreases s.len() - i,
{
    if i == s.len() {
        assert(s.subrange(0, i) =~= s);
    } else {
        lemma_sum_prefix_le(s, i + 1);
        assert(s.subrange(0, i + 1).drop_last() =~= s.subrange(0, i));
        assert(sum_int(s.subrange(0, i + 1)) == sum_int(s.subrange(0, i)) + s[i]);
    }
}

} // verus!
