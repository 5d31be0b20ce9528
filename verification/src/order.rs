//! Ordering of scored history positions: a stable merge sort by descending
//! score.

use vstd::prelude::*;
use crate::similarity::Similarity;

verus! {

/// A position of the history with the score that orders it and the
/// similarity that is shown for it.
#[derive(Clone, Copy, Debug)]
pub(crate) struct Scored {
    pub(crate) score: i64,
    pub(crate) position: usize,
    pub(crate) similarity: Similarity,
}

/// `a` is listed before `b`: it has the higher score, or the same score and
/// the earlier position.
pub(crate) open spec fn ranks_before(a: Scored, b: Scored) -> bool {
    a.score > b.score || (a.score == b.score && a.position < b.position)
}

/// Every item is listed before all that follow it.
pub(crate) open spec fn is_ranked(s: Seq<Scored>) -> bool {
    forall|p: int, q: int| 0 <= p < q < s.len() ==> ranks_before(#[trigger] s[p], #[trigger] s[q])
}

/// No position occurs twice.
pub(crate) open spec fn distinct_positions(s: Seq<Scored>) -> bool {
    forall|p: int, q: int|
        0 <= p < q < s.len() ==> (#[trigger] s[p]).position != (#[trigger] s[q]).position
}

/// No position occurs in both sequences.
pub(crate) open spec fn disjoint_positions(a: Seq<Scored>, b: Seq<Scored>) -> bool {
    forall|p: int, q: int|
        0 <= p < a.len() && 0 <= q < b.len() ==> (#[trigger] a[p]).position != (
        #[trigger] b[q]).position
}

fn before(a: &Scored, b: &Scored) -> (res: bool)
    ensures
        res == ranks_before(*a, *b),
{
    a.score > b.score || (a.score == b.score && a.position < b.position)
}

/// Merges two ranked sequences into one.
fn merge(a: &Vec<Scored>, b: &Vec<Scored>) -> (res: Vec<Scored>)
    requires
        is_ranked(a@),
        is_ranked(b@),
        disjoint_positions(a@, b@),
        a.len() + b.len() <= usize::MAX,
    ensures
        res.len() == a.len() + b.len(),
        is_ranked(res@),
        forall|p: int| 0 <= p < res.len() ==> a@.contains(#[trigger] res[p]) || b@.contains(res[p]),
{
    let mut res: Vec<Scored> = Vec::new();
    let mut i: usize = 0;
    let mut j: usize = 0;
    while i < a.len() || j < b.len()
        invariant
            i <= a.len(),
            j <= b.len(),
            res.len() == i + j,
            is_ranked(a@),
            is_ranked(b@),
            disjoint_positions(a@, b@),
            is_ranked(res@),
            forall|p: int, k: int|
                0 <= p < res.len() && i <= k < a.len() ==> ranks_before(
                    #[trigger] res[p],
                    #[trigger] a[k],
                ),
            forall|p: int, k: int|
                0 <= p < res.len() && j <= k < b.len() ==> ranks_before(
                    #[trigger] res[p],
                    #[trigger] b[k],
                ),
            forall|p: int|
                0 <= p < res.len() ==> a@.contains(#[trigger] res[p]) || b@.contains(res[p]),
        decreases a.len() - i + (b.len() - j),
    {
        let take_a = if i >= a.len() {
            false
        } else if j >= b.len() {
            true
        } else {
            before(&a[i], &b[j])
        };
        let ghost prev = res@;
        if take_a {
            let x = a[i];
            res.push(x);
            i = i + 1;
            proof {
                assert(a@.contains(x)) by {
                    assert(a@[i - 1] == x);
                }
                assert forall|p: int, k: int|
                    0 <= p < res.len() && j <= k < b.len() implies ranks_before(
                    #[trigger] res[p],
                    #[trigger] b[k],
                ) by {
                    if p == res.len() - 1 {
                        assert(ranks_before(a[i - 1], b[j as int]));
                        if k > j {
                            assert(ranks_before(b[j as int], b[k]));
                        }
                    } else {
                        assert(res[p] == prev[p]);
                    }
                }
                assert forall|p: int, k: int|
                    0 <= p < res.len() && i <= k < a.len() implies ranks_before(
                    #[trigger] res[p],
                    #[trigger] a[k],
                ) by {
                    if p == res.len() - 1 {
                        assert(ranks_before(a[i - 1], a[k]));
                    } else {
                        assert(res[p] == prev[p]);
                    }
                }
                assert forall|p: int, q: int| 0 <= p < q < res.len() implies ranks_before(
                    #[trigger] res[p],
                    #[trigger] res[q],
                ) by {
                    if q == res.len() - 1 {
                        assert(res[p] == prev[p]);
                        assert(ranks_before(prev[p], a[i - 1]));
                    } else {
                        assert(res[p] == prev[p] && res[q] == prev[q]);
                    }
                }
                assert forall|p: int| 0 <= p < res.len() implies a@.contains(#[trigger] res[p])
                    || b@.contains(res[p]) by {
                    if p < res.len() - 1 {
                        assert(res[p] == prev[p]);
                    }
                }
            }
        } else {
            let x = b[j];
            res.push(x);
            j = j + 1;
            proof {
                assert(b@.contains(x)) by {
                    assert(b@[j - 1] == x);
                }
                assert forall|p: int, k: int|
                    0 <= p < res.len() && i <= k < a.len() implies ranks_before(
                    #[trigger] res[p],
                    #[trigger] a[k],
                ) by {
                    if p == res.len() - 1 {
                        assert(a[i as int].position != b[j - 1].position);
                        assert(ranks_before(b[j - 1], a[i as int]));
                        if k > i {
                            assert(ranks_before(a[i as int], a[k]));
                        }
                    } else {
                        assert(res[p] == prev[p]);
                    }
                }
                assert forall|p: int, k: int|
                    0 <= p < res.len() && j <= k < b.len() implies ranks_before(
                    #[trigger] res[p],
                    #[trigger] b[k],
                ) by {
                    if p == res.len() - 1 {
                        assert(ranks_before(b[j - 1], b[k]));
                    } else {
                        assert(res[p] == prev[p]);
                    }
                }
                assert forall|p: int, q: int| 0 <= p < q < res.len() implies ranks_before(
                    #[trigger] res[p],
                    #[trigger] res[q],
                ) by {
                    if q == res.len() - 1 {
                        assert(res[p] == prev[p]);
                        assert(ranks_before(prev[p], b[j - 1]));
                    } else {
                        assert(res[p] == prev[p] && res[q] == prev[q]);
                    }
                }
                assert forall|p: int| 0 <= p < res.len() implies a@.contains(#[trigger] res[p])
                    || b@.contains(res[p]) by {
                    if p < res.len() - 1 {
                        assert(res[p] == prev[p]);
                    }
                }
            }
        }
    }
    res
}

/// Ranks the items of `items` between `lo` and `hi`.
fn sort_range(items: &Vec<Scored>, lo: usize, hi: usize) -> (res: Vec<Scored>)
    requires
        lo <= hi <= items.len(),
        distinct_positions(items@),
    ensures
        res.len() == hi - lo,
        is_ranked(res@),
        forall|p: int| 0 <= p < res.len() ==> items@.subrange(lo as int, hi as int).contains(#[trigger] res[p]),
    decreases hi - lo,
{
    if hi - lo == 0 {
        Vec::new()
    } else if hi - lo == 1 {
        let mut res: Vec<Scored> = Vec::new();
        res.push(items[lo]);
        proof {
            assert(items@.subrange(lo as int, hi as int)[0] == res[0]);
        }
        res
    } else {
        let mid: usize = lo + (hi - lo) / 2;
        let left = sort_range(items, lo, mid);
        let right = sort_range(items, mid, hi);
        proof {
            let l = items@.subrange(lo as int, mid as int);
            let r = items@.subrange(mid as int, hi as int);
            assert forall|p: int, q: int| 0 <= p < left.len() && 0 <= q < right.len() implies (
            #[trigger] left[p]).position != (#[trigger] right[q]).position by {
                assert(l.contains(left[p]));
                assert(r.contains(right[q]));
                let x = choose|x: int| 0 <= x < l.len() && l[x] == left[p];
                let y = choose|y: int| 0 <= y < r.len() && r[y] == right[q];
                assert(items[lo + x] == left[p]);
                assert(items[mid + y] == right[q]);
            }
        }
        let res = merge(&left, &right);
        proof {
            let l = items@.subrange(lo as int, mid as int);
            let r = items@.subrange(mid as int, hi as int);
            let whole = items@.subrange(lo as int, hi as int);
            assert forall|p: int| 0 <= p < res.len() implies whole.contains(#[trigger] res[p]) by {
                if left@.contains(res[p]) {
                    let x = choose|x: int| 0 <= x < left.len() && left[x] == res[p];
                    assert(l.contains(left[x]));
                    let y = choose|y: int| 0 <= y < l.len() && l[y] == left[x];
                    assert(whole[y] == res[p]);
                } else {
                    assert(right@.contains(res[p]));
                    let x = choose|x: int| 0 <= x < right.len() && right[x] == res[p];
                    assert(r.contains(right[x]));
                    let y = choose|y: int| 0 <= y < r.len() && r[y] == right[x];
                    assert(whole[mid - lo + y] == res[p]);
                }
            }
        }
        res
    }
}

/// Puts scored positions in ranking order: by descending score, and among
/// equal scores by ascending position.
///
/// The result holds the items of `items` and no others; as no position occurs
/// twice, there is exactly one such order.
pub(crate) fn sort_by_rank(items: &Vec<Scored>) -> (res: Vec<Scored>)
    requires
        distinct_positions(items@),
    ensures
        res.len() == items.len(),
        is_ranked(res@),
        forall|p: int| 0 <= p < res.len() ==> items@.contains(#[trigger] res[p]),
{
    let res = sort_range(items, 0, items.len());
    proof {
        assert(items@.subrange(0, items.len() as int) =~= items@);
    }
    res
}

} // verus!
