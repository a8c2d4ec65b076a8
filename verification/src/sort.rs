//! Stable ordering of indices by integer keys: the draw orders are all of this form.

use vstd::prelude::*;

verus! {

/// Index `a` is drawn before index `b`: smaller key first, submission order among equal keys.
pub open spec fn comes_before(keys: Seq<u64>, a: usize, b: usize) -> bool {
    keys[a as int] < keys[b as int] || (keys[a as int] == keys[b as int] && a < b)
}

/// `order` lists each index in `[lo, hi)` once, in drawing order.
pub open spec fn orders_range(keys: Seq<u64>, order: Seq<usize>, lo: int, hi: int) -> bool {
    &&& order.len() == hi - lo
    &&& forall|i: int| 0 <= i < order.len() ==> lo <= #[trigger] order[i] < hi
    &&& forall|k: usize| lo <= k < hi ==> #[trigger] order.contains(k)
    &&& forall|i: int, j: int|
        0 <= i < j < order.len() ==> comes_before(keys, #[trigger] order[i], #[trigger] order[j])
}

/// `order` is the stable ordering of all the indices of `keys`.
pub open spec fn is_stable_order(keys: Seq<u64>, order: Seq<usize>) -> bool {
    orders_range(keys, order, 0, keys.len() as int)
}

/// There is only one stable ordering, so `is_stable_order` pins the result down.
pub proof fn law_stable_order_is_unique(keys: Seq<u64>, a: Seq<usize>, b: Seq<usize>)
    requires
        is_stable_order(keys, a),
        is_stable_order(keys, b),
    ensures
        a == b,
{
    assert forall|n: int| 0 <= n <= a.len() implies #[trigger] a.take(n) == b.take(n) by {
        lemma_prefixes_agree(keys, a, b, n);
    }
    assert(a.take(a.len() as int) =~= a);
    assert(b.take(b.len() as int) =~= b);
}

proof fn lemma_prefixes_agree(keys: Seq<u64>, a: Seq<usize>, b: Seq<usize>, n: int)
    requires
        is_stable_order(keys, a),
        is_stable_order(keys, b),
        0 <= n <= a.len(),
    ensures
        a.take(n) == b.take(n),
    decreases n,
{
    if n > 0 {
        lemma_prefixes_agree(keys, a, b, n - 1);
        assert forall|i: int| 0 <= i < n - 1 implies a[i] == b[i] by {
            assert(a.take(n - 1)[i] == b.take(n - 1)[i]);
        }
        // Each of the two next indices stands at or behind the other's place.
        let (x, y) = (a[n - 1], b[n - 1]);
        assert(b.contains(x));
        let j = choose|j: int| 0 <= j < b.len() && b[j] == x;
        assert(a.contains(y));
        let k = choose|k: int| 0 <= k < a.len() && a[k] == y;
        if x != y {
            if j < n - 1 {
                assert(a[j] == x);
                assert(comes_before(keys, a[j], a[n - 1]));
            }
            if k < n - 1 {
                assert(b[k] == y);
                assert(comes_before(keys, b[k], b[n - 1]));
            }
            assert(comes_before(keys, b[n - 1], b[j]));
            assert(comes_before(keys, a[n - 1], a[k]));
        }
        assert(a.take(n) =~= a.take(n - 1).push(x));
        assert(b.take(n) =~= b.take(n - 1).push(y));
    } else {
        assert(a.take(0) =~= b.take(0));
    }
}

/// Merge the orderings of two adjacent ranges.
fn merge(
    keys: &Vec<u64>,
    a: &Vec<usize>,
    b: &Vec<usize>,
    Ghost(lo): Ghost<int>,
    Ghost(mid): Ghost<int>,
    Ghost(hi): Ghost<int>,
) -> (out: Vec<usize>)
    requires
        0 <= lo <= mid <= hi <= keys@.len(),
        orders_range(keys@, a@, lo, mid),
        orders_range(keys@, b@, mid, hi),
    ensures
        orders_range(keys@, out@, lo, hi),
{
    let mut out: Vec<usize> = Vec::new();
    let mut i: usize = 0;
    let mut j: usize = 0;
    while i < a.len() || j < b.len()
        invariant
            0 <= lo <= mid <= hi <= keys@.len(),
            orders_range(keys@, a@, lo, mid),
            orders_range(keys@, b@, mid, hi),
            i <= a@.len(),
            j <= b@.len(),
            out@.len() == i + j,
            forall|p: int| 0 <= p < out@.len() ==> lo <= #[trigger] out@[p] < hi,
            forall|p: int, q: int|
                0 <= p < q < out@.len() ==> comes_before(keys@, #[trigger] out@[p], #[trigger] out@[q]),
            forall|p: int, q: int|
                0 <= p < out@.len() && i <= q < a@.len() ==> comes_before(
                    keys@,
                    #[trigger] out@[p],
                    #[trigger] a@[q],
                ),
            forall|p: int, q: int|
                0 <= p < out@.len() && j <= q < b@.len() ==> comes_before(
                    keys@,
                    #[trigger] out@[p],
                    #[trigger] b@[q],
                ),
            forall|q: int| 0 <= q < i ==> out@.contains(#[trigger] a@[q]),
            forall|q: int| 0 <= q < j ==> out@.contains(#[trigger] b@[q]),
        decreases a@.len() - i + b@.len() - j,
    {
        let ghost before = out@;
        let from_a: bool = if i < a.len() && j < b.len() {
            keys[a[i]] <= keys[b[j]]
        } else {
            i < a.len()
        };
        if from_a {
            out.push(a[i]);
            i = i + 1;
            proof {
                let x = a@[i - 1];
                assert(out@[out@.len() - 1] == x);
                assert forall|q: int| j <= q < b@.len() implies comes_before(
                    keys@,
                    x,
                    #[trigger] b@[q],
                ) by {
                    if q > j {
                        assert(comes_before(keys@, b@[j as int], b@[q]));
                    }
                }
            }
        } else {
            out.push(b[j]);
            j = j + 1;
            proof {
                let x = b@[j - 1];
                assert(out@[out@.len() - 1] == x);
                assert forall|q: int| i <= q < a@.len() implies comes_before(
                    keys@,
                    x,
                    #[trigger] a@[q],
                ) by {
                    if q > i {
                        assert(comes_before(keys@, a@[i as int], a@[q]));
                    }
                }
            }
        }
        proof {
            assert(forall|p: int| 0 <= p < before.len() ==> out@[p] == before[p]);
            assert forall|q: int| 0 <= q < i implies out@.contains(#[trigger] a@[q]) by {
                if before.contains(a@[q]) {
                    let p = choose|p: int| 0 <= p < before.len() && before[p] == a@[q];
                    assert(out@[p] == a@[q]);
                } else {
                    assert(out@[out@.len() - 1] == a@[q]);
                }
            }
            assert forall|q: int| 0 <= q < j implies out@.contains(#[trigger] b@[q]) by {
                if before.contains(b@[q]) {
                    let p = choose|p: int| 0 <= p < before.len() && before[p] == b@[q];
                    assert(out@[p] == b@[q]);
                } else {
                    assert(out@[out@.len() - 1] == b@[q]);
                }
            }
        }
    }
    proof {
        assert forall|k: usize| lo <= k < hi implies #[trigger] out@.contains(k) by {
            if k < mid {
                assert(a@.contains(k));
                let q = choose|q: int| 0 <= q < a@.len() && a@[q] == k;
                assert(out@.contains(a@[q]));
            } else {
                assert(b@.contains(k));
                let q = choose|q: int| 0 <= q < b@.len() && b@[q] == k;
                assert(out@.contains(b@[q]));
            }
        }
    }
    out
}

fn order_range(keys: &Vec<u64>, lo: usize, hi: usize) -> (order: Vec<usize>)
    requires
        lo <= hi <= keys@.len(),
    ensures
        orders_range(keys@, order@, lo as int, hi as int),
    decreases hi - lo,
{
    if hi - lo <= 1 {
        let mut order: Vec<usize> = Vec::new();
        if lo < hi {
            order.push(lo);
            assert(order@[0] == lo);
        }
        order
    } else {
        let mid: usize = lo + (hi - lo) / 2;
        let a: Vec<usize> = order_range(keys, lo, mid);
        let b: Vec<usize> = order_range(keys, mid, hi);
        merge(keys, &a, &b, Ghost(lo as int), Ghost(mid as int), Ghost(hi as int))
    }
}

/// The indices of `keys`, smallest key first, submission order among equal keys.
pub fn stable_order(keys: &Vec<u64>) -> (order: Vec<usize>)
    ensures
        is_stable_order(keys@, order@),
{
    order_range(keys, 0, keys.len())
}

} // verus!
