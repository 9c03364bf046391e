//! Selection policies: keep the best-scored candidates, or draw candidates in
//! proportion to their scores.

use vstd::prelude::*;

verus! {

/// Why a selection could not be made.
#[derive(Clone, Copy, Debug, PartialEq, Eq, Structural)]
pub enum SelectError {
    /// The scores sum to zero (or there are none), so they give no distribution.
    ZeroSum,
    /// The scores sum past `u64::MAX`.
    TooLarge,
}

/// Whether `order` ranks the indices it holds by non-increasing score, with equal
/// scores kept in index order.
pub open spec fn ranked(scores: Seq<u64>, order: Seq<usize>) -> bool {
    forall|a: int, b: int|
        0 <= a < b < order.len() ==> scores[order[a] as int] > scores[order[b] as int] || (
        scores[order[a] as int] == scores[order[b] as int] && order[a] < order[b])
}

/// Whether `order` holds each index below `n` exactly once.
pub open spec fn is_permutation(order: Seq<usize>, n: nat) -> bool {
    &&& order.len() == n
    &&& forall|a: int| 0 <= a < order.len() ==> order[a] < n
    &&& forall|a: int, b: int| 0 <= a < b < order.len() ==> order[a] != order[b]
    &&& forall|i: usize| i < n ==> order.contains(i)
}

/// The sum of `scores`.
pub open spec fn total(scores: Seq<u64>) -> nat
    decreases scores.len(),
{
    if scores.len() == 0 {
        0
    } else {
        total(scores.drop_last()) + scores.last() as nat
    }
}

/// All indices, best score first; equal scores stay in index order.
pub fn greedy(scores: &Vec<u64>) -> (order: Vec<usize>)
    ensures
        is_permutation(order@, scores@.len()),
        ranked(scores@, order@),
{
    let mut order: Vec<usize> = Vec::new();
    let mut i: usize = 0;
    while i < scores.len()
        invariant
            i <= scores@.len(),
            order@.len() == i,
            forall|a: int| 0 <= a < order@.len() ==> order@[a] < i,
            forall|a: int, b: int| 0 <= a < b < order@.len() ==> order@[a] != order@[b],
            forall|j: usize| j < i ==> order@.contains(j),
            ranked(scores@, order@),
        decreases scores.len() - i,
    {
        let v = scores[i];
        let mut p: usize = 0;
        while p < order.len() && scores[order[p]] >= v
            invariant
                i < scores@.len(),
                v == scores@[i as int],
                p <= order@.len(),
                forall|a: int| 0 <= a < order@.len() ==> order@[a] < i,
                forall|a: int| 0 <= a < p ==> scores@[order@[a] as int] >= v,
            decreases order.len() - p,
        {
            p = p + 1;
        }
        proof {
            assert forall|a: int| p <= a < order@.len() implies scores@[order@[a] as int] < v by {
                if p < order@.len() {
                    assert(scores@[order@[p as int] as int] < v);
                    if a > p {
                        assert(scores@[order@[p as int] as int] > scores@[order@[a] as int] || (
                        scores@[order@[p as int] as int] == scores@[order@[a] as int]));
                    }
                }
            }
        }
        let ghost prev = order@;
        order.insert(p, i);
        proof {
            assert(order@ == prev.insert(p as int, i));
            assert forall|j: usize| j < i + 1 implies order@.contains(j) by {
                if j == i {
                    assert(order@[p as int] == i);
                } else {
                    assert(prev.contains(j));
                    let a = choose|a: int| 0 <= a < prev.len() && prev[a] == j;
                    if a < p {
                        assert(order@[a] == j);
                    } else {
                        assert(order@[a + 1] == j);
                    }
                }
            }
        }
        i = i + 1;
    }
    order
}

/// The first `n` indices of the greedy order (all of them when there are fewer).
pub fn select_greedy(scores: &Vec<u64>, n: usize) -> (r: Vec<usize>)
    ensures
        r@.len() == if n < scores@.len() { n as int } else { scores@.len() as int },
        forall|a: int| 0 <= a < r@.len() ==> r@[a] < scores@.len(),
        forall|a: int, b: int| 0 <= a < b < r@.len() ==> r@[a] != r@[b],
        ranked(scores@, r@),
        forall|a: int, i: int|
            0 <= a < r@.len() && 0 <= i < scores@.len() && #[trigger] scores@[i] > scores@[#[trigger] r@[a] as int]
                ==> r@.contains(i as usize),
{
    let order = greedy(scores);
    let mut r: Vec<usize> = Vec::new();
    let mut a: usize = 0;
    while a < order.len() && a < n
        invariant
            is_permutation(order@, scores@.len()),
            ranked(scores@, order@),
            a <= order@.len(),
            a <= n,
            r@ == order@.subrange(0, a as int),
        decreases order.len() - a,
    {
        r.push(order[a]);
        a = a + 1;
    }
    proof {
        assert forall|x: int, i: int|
            0 <= x < r@.len() && 0 <= i < scores@.len() && #[trigger] scores@[i] > scores@[#[trigger] r@[x] as int]
                implies r@.contains(i as usize) by {
            assert(order@.contains(i as usize));
            let b = choose|b: int| 0 <= b < order@.len() && order@[b] == i as usize;
            if b >= x {
                assert(!(scores@[order@[x] as int] > scores@[order@[b] as int] || (
                scores@[order@[x] as int] == scores@[order@[b] as int])));
                assert(false);
            }
            assert(r@[b] == i as usize);
        }
    }
    r
}

proof fn lemma_total_prefix_grows(scores: Seq<u64>, i: int, j: int)
    requires
        0 <= i <= j <= scores.len(),
    ensures
        total(scores.subrange(0, i)) <= total(scores.subrange(0, j)),
    decreases j - i,
{
    if i < j {
        assert(scores.subrange(0, j).drop_last() =~= scores.subrange(0, j - 1));
        lemma_total_prefix_grows(scores, i, j - 1);
    }
}

/// The sum of `scores`, or `None` when it exceeds `u64::MAX`.
pub fn checked_total(scores: &Vec<u64>) -> (r: Option<u64>)
    ensures
        r matches Some(t) ==> t == total(scores@),
        r is None ==> total(scores@) > u64::MAX,
{
    let mut sum: u64 = 0;
    let mut i: usize = 0;
    while i < scores.len()
        invariant
            i <= scores@.len(),
            sum == total(scores@.subrange(0, i as int)),
        decreases scores.len() - i,
    {
        assert(scores@.subrange(0, i + 1).drop_last() =~= scores@.subrange(0, i as int));
        if sum > u64::MAX - scores[i] {
            proof {
                lemma_total_prefix_grows(scores@, i + 1, scores@.len() as int);
                assert(scores@.subrange(0, scores@.len() as int) =~= scores@);
            }
            return None;
        }
        sum = sum + scores[i];
        i = i + 1;
    }
    assert(scores@.subrange(0, scores@.len() as int) =~= scores@);
    Some(sum)
}

/// Relies on rand's `WeightedIndex::new` and its `Distribution::sample`, with
/// `thread_rng` as the source: the index drawn is `i` with probability
/// `weights[i] / total`. `new` succeeds on weights that are not all zero and whose
/// sum fits; `sample` returns the first index whose cumulative weight exceeds a
/// uniform draw below the total, so that index has a positive weight.
#[verifier::external_body]
fn draw_weighted(weights: &Vec<u64>) -> (r: usize)
    requires
        0 < total(weights@) <= u64::MAX,
    ensures
        r < weights@.len(),
        weights@[r as int] > 0,
{
    let dist = rand::distributions::WeightedIndex::new(weights.iter()).unwrap();
    rand::distributions::Distribution::sample(&dist, &mut rand::thread_rng())
}

/// `n` indices drawn independently, with replacement, each with probability
/// proportional to its score. Refused when the scores sum to zero or overflow.
pub fn select_sample(scores: &Vec<u64>, n: usize) -> (r: Result<Vec<usize>, SelectError>)
    ensures
        r == Err::<Vec<usize>, SelectError>(SelectError::ZeroSum) <==> total(scores@) == 0,
        r == Err::<Vec<usize>, SelectError>(SelectError::TooLarge) <==> total(scores@) > u64::MAX,
        r matches Ok(v) ==> v@.len() == n && forall|a: int|
            0 <= a < n ==> #[trigger] v@[a] < scores@.len() && scores@[v@[a] as int] > 0,
{
    let t = match checked_total(scores) {
        None => {
            return Err(SelectError::TooLarge);
        },
        Some(t) => t,
    };
    if t == 0 {
        return Err(SelectError::ZeroSum);
    }
    let mut r: Vec<usize> = Vec::new();
    let mut i: usize = 0;
    while i < n
        invariant
            0 < total(scores@) <= u64::MAX,
            i <= n,
            r@.len() == i,
            forall|a: int| 0 <= a < i ==> #[trigger] r@[a] < scores@.len() && scores@[r@[a] as int] > 0,
        decreases n - i,
    {
        r.push(draw_weighted(scores));
        i = i + 1;
    }
    Ok(r)
}

} // verus!
