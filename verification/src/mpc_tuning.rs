//! Selection step of the genetic algorithm that tunes the MPC weights: candidates are ranked
//! by score (lower is better, ties kept in population order), the best `elite_count` are
//! carried over unchanged, and the rest of the next generation are children of two parents
//! drawn at random from the better half of the ranking.
//!
//! Scores are handed in as order keys: `u64` values that order the candidates as their
//! scores do.

use rand::Rng;
use rand::rngs::ThreadRng;
use vstd::prelude::*;

verus! {

/// rand's thread-local generator.
#[verifier::external_type_specification]
#[verifier::external_body]
pub struct ExThreadRng(rand::rngs::ThreadRng);

/// `Rng::random_range` (called `gen_range` before rand 0.9) on the range `0..bound`: an
/// index drawn uniformly below `bound`. The contract claims only that the index is below
/// `bound`; which one comes out rests on chance. rand panics on an empty range, so
/// `bound` must be positive.
#[verifier::external_body]
fn random_index(rng: &mut ThreadRng, bound: usize) -> (r: usize)
    requires
        bound > 0,
    ensures
        r < bound,
{
    rng.random_range(0..bound)
}

/// Candidate `a` ranks before candidate `b`: a lower key, or the same key and an earlier
/// position in the population.
pub open spec fn ranks_before(keys: Seq<u64>, a: int, b: int) -> bool {
    keys[a] < keys[b] || (keys[a] == keys[b] && a < b)
}

/// `r` lists every candidate of `keys` once, best first.
pub open spec fn is_ranking(keys: Seq<u64>, r: Seq<usize>) -> bool {
    &&& r.len() == keys.len()
    &&& forall|i: int| 0 <= i < r.len() ==> #[trigger] r[i] < keys.len()
    &&& forall|i: int, j: int|
        0 <= i < j < r.len() ==> ranks_before(keys, #[trigger] r[i] as int, #[trigger] r[j] as int)
}

/// Ranks the candidates by their order keys, ascending; candidates with equal keys keep
/// their population order (a stable sort of the indices).
pub fn rank_by_score(keys: &Vec<u64>) -> (ranking: Vec<usize>)
    ensures
        is_ranking(keys@, ranking@),
{
    let n = keys.len();
    let mut r: Vec<usize> = Vec::new();
    let mut i: usize = 0;
    while i < n
        invariant
            n == keys@.len(),
            i <= n,
            r@.len() == i,
            forall|k: int| 0 <= k < r@.len() ==> #[trigger] r@[k] < i,
            forall|a: int, b: int|
                0 <= a < b < r@.len() ==> ranks_before(
                    keys@,
                    #[trigger] r@[a] as int,
                    #[trigger] r@[b] as int,
                ),
        decreases n - i,
    {
        let key = keys[i];
        let mut p: usize = 0;
        while p < r.len() && keys[r[p]] <= key
            invariant
                n == keys@.len(),
                i < n,
                key == keys@[i as int],
                p <= r@.len(),
                r@.len() == i,
                forall|k: int| 0 <= k < r@.len() ==> #[trigger] r@[k] < i,
                forall|k: int| 0 <= k < p ==> keys@[#[trigger] r@[k] as int] <= key,
            decreases r@.len() - p,
        {
            p = p + 1;
        }
        let ghost old_r = r@;
        proof {
            assert forall|k: int| p <= k < old_r.len() implies key < keys@[#[trigger] old_r[k] as int] by {
                if k > p {
                    assert(ranks_before(keys@, old_r[p as int] as int, old_r[k] as int));
                }
            }
        }
        r.insert(p, i);
        proof {
            assert forall|a: int, b: int|
                0 <= a < b < r@.len() implies ranks_before(
                keys@,
                #[trigger] r@[a] as int,
                #[trigger] r@[b] as int,
            ) by {
                if b < p {
                    assert(r@[a] == old_r[a] && r@[b] == old_r[b]);
                } else if b == p {
                    assert(r@[a] == old_r[a]);
                } else if a < p {
                    assert(r@[a] == old_r[a] && r@[b] == old_r[b - 1]);
                } else if a == p {
                    assert(r@[b] == old_r[b - 1]);
                } else {
                    assert(r@[a] == old_r[a - 1] && r@[b] == old_r[b - 1]);
                }
            }
            assert forall|k: int| 0 <= k < r@.len() implies #[trigger] r@[k] < i + 1 by {
                if k < p {
                    assert(r@[k] == old_r[k]);
                } else if k > p {
                    assert(r@[k] == old_r[k - 1]);
                }
            }
        }
        i = i + 1;
    }
    r
}

/// One member of the next generation.
#[derive(Clone, Copy, Debug, PartialEq, Eq, Structural)]
pub enum Offspring {
    /// The candidate at this population index, carried over unchanged.
    Elite(usize),
    /// A child of the candidates at these two population indices.
    Child { parent1: usize, parent2: usize },
}

/// `c` is a candidate of the better half of the ranking (its first `population_size / 2`
/// entries).
pub open spec fn in_better_half(ranking: Seq<usize>, population_size: usize, c: usize) -> bool {
    exists|a: int| 0 <= a < population_size / 2 && #[trigger] ranking[a] == c
}

pub open spec fn next_generation_size(elite_count: usize, population_size: usize) -> int {
    if elite_count > population_size {
        elite_count as int
    } else {
        population_size as int
    }
}

/// Whether `plan` is a next generation as the tuner builds it from `ranking`: the
/// `elite_count` best first, in rank order, then children of better-half parents until the
/// population size is reached.
pub open spec fn is_generation_plan(
    ranking: Seq<usize>,
    elite_count: usize,
    population_size: usize,
    plan: Seq<Offspring>,
) -> bool {
    &&& plan.len() == next_generation_size(elite_count, population_size)
    &&& forall|i: int| 0 <= i < elite_count ==> #[trigger] plan[i] == Offspring::Elite(ranking[i])
    &&& forall|i: int|
        elite_count <= i < plan.len() ==> (#[trigger] plan[i] matches Offspring::Child {
            parent1,
            parent2,
        } && in_better_half(ranking, population_size, parent1) && in_better_half(
            ranking,
            population_size,
            parent2,
        ))
}

/// The plan whose children take their parents from the drawn positions: child `k` (the
/// `k`-th member after the elites) has the candidates at ranking positions `draws[k].0`
/// and `draws[k].1` as parents.
pub open spec fn spec_plan_from_draws(
    ranking: Seq<usize>,
    elite_count: usize,
    population_size: usize,
    draws: Seq<(usize, usize)>,
) -> Seq<Offspring> {
    Seq::new(
        next_generation_size(elite_count, population_size) as nat,
        |i: int|
            if i < elite_count {
                Offspring::Elite(ranking[i])
            } else {
                Offspring::Child {
                    parent1: ranking[draws[i - elite_count].0 as int],
                    parent2: ranking[draws[i - elite_count].1 as int],
                }
            },
    )
}

/// Number of children in the next generation.
pub open spec fn child_count(elite_count: usize, population_size: usize) -> int {
    next_generation_size(elite_count, population_size) - elite_count
}

/// Builds the next generation from the ranking and the drawn parent positions (one pair
/// per child, each position in the better half of the ranking).
pub fn plan_from_draws(
    ranking: &Vec<usize>,
    elite_count: usize,
    population_size: usize,
    draws: &Vec<(usize, usize)>,
) -> (plan: Vec<Offspring>)
    requires
        elite_count <= ranking@.len(),
        population_size / 2 <= ranking@.len(),
        draws@.len() == child_count(elite_count, population_size),
        forall|k: int|
            0 <= k < draws@.len() ==> (#[trigger] draws@[k]).0 < population_size / 2
                && draws@[k].1 < population_size / 2,
    ensures
        plan@ == spec_plan_from_draws(ranking@, elite_count, population_size, draws@),
        is_generation_plan(ranking@, elite_count, population_size, plan@),
{
    let mut plan: Vec<Offspring> = Vec::new();
    let mut i: usize = 0;
    while i < elite_count
        invariant
            i <= elite_count <= ranking@.len(),
            plan@.len() == i,
            forall|k: int| 0 <= k < i ==> #[trigger] plan@[k] == Offspring::Elite(ranking@[k]),
        decreases elite_count - i,
    {
        plan.push(Offspring::Elite(ranking[i]));
        i = i + 1;
    }
    let mut k: usize = 0;
    while k < draws.len()
        invariant
            elite_count <= ranking@.len(),
            population_size / 2 <= ranking@.len(),
            draws@.len() == child_count(elite_count, population_size),
            forall|j: int|
                0 <= j < draws@.len() ==> (#[trigger] draws@[j]).0 < population_size / 2
                    && draws@[j].1 < population_size / 2,
            k <= draws@.len(),
            plan@.len() == elite_count + k,
            forall|j: int| 0 <= j < elite_count ==> #[trigger] plan@[j] == Offspring::Elite(
                ranking@[j],
            ),
            forall|j: int|
                elite_count <= j < plan@.len() ==> #[trigger] plan@[j] == (Offspring::Child {
                    parent1: ranking@[draws@[j - elite_count].0 as int],
                    parent2: ranking@[draws@[j - elite_count].1 as int],
                }),
        decreases draws@.len() - k,
    {
        let (a, b) = draws[k];
        plan.push(Offspring::Child { parent1: ranking[a], parent2: ranking[b] });
        k = k + 1;
    }
    assert(plan@ =~= spec_plan_from_draws(ranking@, elite_count, population_size, draws@));
    assert forall|j: int| elite_count <= j < plan@.len() implies (#[trigger] plan@[j] matches Offspring::Child {
        parent1,
        parent2,
    } && in_better_half(ranking@, population_size, parent1) && in_better_half(
        ranking@,
        population_size,
        parent2,
    )) by {
        let d = draws@[j - elite_count];
        assert(ranking@[d.0 as int] == ranking@[d.0 as int]);
        assert(ranking@[d.1 as int] == ranking@[d.1 as int]);
    }
    plan
}

/// Plans the next generation from the ranking of the current one: draws, for each child,
/// two positions uniformly from the better half of the ranking, and builds the plan from
/// them with `plan_from_draws`.
pub fn plan_next_generation(
    ranking: &Vec<usize>,
    elite_count: usize,
    population_size: usize,
    rng: &mut ThreadRng,
) -> (plan: Vec<Offspring>)
    requires
        elite_count <= ranking@.len(),
        elite_count < population_size ==> 1 <= population_size / 2 <= ranking@.len(),
    ensures
        is_generation_plan(ranking@, elite_count, population_size, plan@),
        exists|draws: Seq<(usize, usize)>|
            plan@ == spec_plan_from_draws(ranking@, elite_count, population_size, draws),
{
    let half = population_size / 2;
    let children: usize = if elite_count < population_size {
        population_size - elite_count
    } else {
        0
    };
    let mut draws: Vec<(usize, usize)> = Vec::new();
    while draws.len() < children
        invariant
            children == child_count(elite_count, population_size),
            children > 0 ==> half >= 1,
            half == population_size / 2,
            draws@.len() <= children,
            forall|k: int|
                0 <= k < draws@.len() ==> (#[trigger] draws@[k]).0 < half && draws@[k].1 < half,
        decreases children - draws@.len(),
    {
        let a = random_index(rng, half);
        let b = random_index(rng, half);
        draws.push((a, b));
    }
    proof {
        if children == 0 {
            assert(draws@.len() == 0);
        }
    }
    let plan = plan_from_draws(ranking, elite_count, population_size, &draws);
    plan
}

/// The plan built from given draws: the elites are the first `elite_count` candidates of
/// the ranking in rank order, and child `k` has as parents the candidates at ranking
/// positions `draws[k].0` and `draws[k].1`; there are exactly as many members as the
/// population size (or the elite count, if larger).
pub proof fn lemma_children_follow_draws(
    ranking: Seq<usize>,
    elite_count: usize,
    population_size: usize,
    draws: Seq<(usize, usize)>,
)
    requires
        elite_count <= ranking.len(),
        draws.len() == child_count(elite_count, population_size),
    ensures
        ({
            let plan = spec_plan_from_draws(ranking, elite_count, population_size, draws);
            &&& plan.len() == elite_count + draws.len()
            &&& plan.len() >= population_size
            &&& forall|i: int| 0 <= i < elite_count ==> plan[i] == Offspring::Elite(ranking[i])
            &&& forall|k: int|
                0 <= k < draws.len() ==> #[trigger] plan[elite_count + k] == (Offspring::Child {
                    parent1: ranking[draws[k].0 as int],
                    parent2: ranking[draws[k].1 as int],
                })
        }),
{
    let plan = spec_plan_from_draws(ranking, elite_count, population_size, draws);
    assert forall|k: int| 0 <= k < draws.len() implies #[trigger] plan[elite_count + k] == (
    Offspring::Child { parent1: ranking[draws[k].0 as int], parent2: ranking[draws[k].1 as int] }) by {
        assert(elite_count + k - elite_count == k);
    }
}

/// A ranking is a stable ascending order of the scores: earlier entries never have a larger
/// key, and entries with equal keys keep their population order.
pub proof fn lemma_ranking_is_stable_ascending(keys: Seq<u64>, r: Seq<usize>, i: int, j: int)
    requires
        is_ranking(keys, r),
        0 <= i < j < r.len(),
    ensures
        keys[r[i] as int] <= keys[r[j] as int],
        keys[r[i] as int] == keys[r[j] as int] ==> r[i] < r[j],
        r[i] != r[j],
{
    assert(ranks_before(keys, r[i] as int, r[j] as int));
}

/// A ranking lists every candidate: each population index appears in it.
pub proof fn lemma_ranking_lists_everyone(keys: Seq<u64>, r: Seq<usize>, c: int)
    requires
        is_ranking(keys, r),
        0 <= c < keys.len(),
    ensures
        exists|k: int| 0 <= k < r.len() && #[trigger] r[k] as int == c,
{
    let ri = r.map_values(|x: usize| x as int);
    assert(ri.no_duplicates()) by {
        assert forall|a: int, b: int| 0 <= a < ri.len() && 0 <= b < ri.len() && a != b implies ri[a]
            != ri[b] by {
            if a < b {
                assert(ranks_before(keys, r[a] as int, r[b] as int));
            } else {
                assert(ranks_before(keys, r[b] as int, r[a] as int));
            }
        }
    }
    ri.unique_seq_to_set();
    vstd::set_lib::lemma_int_range(0, keys.len() as int);
    let full = vstd::set_lib::set_int_range(0, keys.len() as int);
    assert(ri.to_set().subset_of(full)) by {
        assert forall|x: int| ri.to_set().contains(x) implies full.contains(x) by {
            let k = choose|k: int| 0 <= k < ri.len() && ri[k] == x;
            assert(r[k] < keys.len());
        }
    }
    vstd::set_lib::lemma_subset_equality(ri.to_set(), full);
    assert(full.contains(c));
    assert(ri.to_set().contains(c));
    let k = choose|k: int| 0 <= k < ri.len() && ri[k] == c;
    assert(r[k] as int == c);
}

/// The ranking is determined by the scores: any two rankings of the same keys are equal,
/// so `rank_by_score` gives the one order a stable sort by score gives.
pub proof fn lemma_ranking_is_unique(keys: Seq<u64>, r1: Seq<usize>, r2: Seq<usize>)
    requires
        is_ranking(keys, r1),
        is_ranking(keys, r2),
    ensures
        r1 == r2,
{
    if exists|k: int| 0 <= k < r1.len() && r1[k] != r2[k] {
        let k = choose|k: int|
            0 <= k < r1.len() && r1[k] != r2[k] && forall|m: int|
                0 <= m < k ==> r1[m] == r2[m];
        assert(0 <= k < r1.len() && r1[k] != r2[k] && forall|m: int|
            0 <= m < k ==> r1[m] == r2[m]) by {
            lemma_first_difference(r1, r2);
        }
        let a = r1[k];
        let b = r2[k];
        lemma_ranking_lists_everyone(keys, r2, a as int);
        lemma_ranking_lists_everyone(keys, r1, b as int);
        let j2 = choose|j: int| 0 <= j < r2.len() && #[trigger] r2[j] as int == a as int;
        let j1 = choose|j: int| 0 <= j < r1.len() && #[trigger] r1[j] as int == b as int;
        if j2 < k {
            assert(r1[j2] == a);
            assert(ranks_before(keys, r1[j2] as int, r1[k] as int));
        }
        if j1 < k {
            assert(r2[j1] == b);
            assert(ranks_before(keys, r2[j1] as int, r2[k] as int));
        }
        assert(ranks_before(keys, r2[k] as int, r2[j2] as int));
        assert(ranks_before(keys, r1[k] as int, r1[j1] as int));
        assert(false);
    }
    assert(r1 =~= r2);
}

/// Two sequences of the same length that differ somewhere have a first difference.
proof fn lemma_first_difference(r1: Seq<usize>, r2: Seq<usize>)
    requires
        r1.len() == r2.len(),
        exists|k: int| 0 <= k < r1.len() && r1[k] != r2[k],
    ensures
        exists|k: int|
            0 <= k < r1.len() && r1[k] != r2[k] && forall|m: int| 0 <= m < k ==> r1[m] == r2[m],
    decreases r1.len(),
{
    if r1[0] != r2[0] {
        assert(0 < r1.len() && r1[0] != r2[0] && forall|m: int| 0 <= m < 0 ==> r1[m] == r2[m]);
    } else {
        let t1 = r1.drop_first();
        let t2 = r2.drop_first();
        let k = choose|k: int| 0 <= k < r1.len() && r1[k] != r2[k];
        assert(t1[k - 1] != t2[k - 1]);
        lemma_first_difference(t1, t2);
        let j = choose|j: int|
            0 <= j < t1.len() && t1[j] != t2[j] && forall|m: int| 0 <= m < j ==> t1[m] == t2[m];
        assert forall|m: int| 0 <= m < j + 1 implies r1[m] == r2[m] by {
            if m > 0 {
                assert(t1[m - 1] == t2[m - 1]);
            }
        }
        assert(r1[j + 1] != r2[j + 1]);
    }
}

/// Elitism: every candidate carried over unchanged scores at least as well as every
/// candidate of the current generation that is not carried over.
pub proof fn lemma_elites_are_the_best(
    keys: Seq<u64>,
    ranking: Seq<usize>,
    elite_count: usize,
    population_size: usize,
    plan: Seq<Offspring>,
    i: int,
    c: int,
)
    requires
        is_ranking(keys, ranking),
        is_generation_plan(ranking, elite_count, population_size, plan),
        elite_count <= ranking.len(),
        0 <= i < elite_count,
        0 <= c < keys.len(),
        forall|k: int| 0 <= k < elite_count ==> #[trigger] ranking[k] as int != c,
    ensures
        plan[i] matches Offspring::Elite(e) && keys[e as int] <= keys[c],
{
    lemma_ranking_lists_everyone(keys, ranking, c);
    let k = choose|k: int| 0 <= k < ranking.len() && #[trigger] ranking[k] as int == c;
    assert(k >= elite_count);
    assert(ranks_before(keys, ranking[i] as int, ranking[k] as int));
}

} // verus!
