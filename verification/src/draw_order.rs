//! The order in which the polygons of a scene are drawn: back to front, so
//! that what is near the camera is painted over what is far.
use crate::binary64::{total_order_key, total_order_rank};
use vstd::prelude::*;

verus! {

/// Polygon `i` is drawn before polygon `j`, where `keys[k]` is the distance
/// of polygon `k` from the camera: the farther one first, by the total order
/// of the distances, and of two at the same distance the one that comes
/// first in the scene.
pub open spec fn drawn_before(keys: Seq<u64>, i: int, j: int) -> bool {
    total_order_key(keys[i]) > total_order_key(keys[j]) || (total_order_key(keys[i])
        == total_order_key(keys[j]) && i < j)
}

/// `order` lists the indices from `lo` up to `hi`, each of them, with every
/// entry drawn before those behind it.
pub open spec fn orders_range(keys: Seq<u64>, order: Seq<usize>, lo: int, hi: int) -> bool {
    &&& order.len() == hi - lo
    &&& forall|k: int| 0 <= k < order.len() ==> lo <= #[trigger] order[k] < hi
    &&& forall|k: int, l: int|
        0 <= k < l < order.len() ==> drawn_before(keys, order[k] as int, order[l] as int)
    &&& forall|i: usize| lo <= i < hi ==> order.contains(i)
}

/// `order` is the drawing order of the polygons with the distances `keys`:
/// every polygon once, back to front.
pub open spec fn is_draw_order(keys: Seq<u64>, order: Seq<usize>) -> bool {
    orders_range(keys, order, 0, keys.len() as int)
}

/// The drawing order of the polygons with the distances `keys`.
pub open spec fn draw_order_of(keys: Seq<u64>) -> Seq<usize> {
    choose|order: Seq<usize>| is_draw_order(keys, order)
}

/// Two lists that order the same range agree on their first `n` entries.
proof fn lemma_orders_agree(keys: Seq<u64>, a: Seq<usize>, b: Seq<usize>, lo: int, hi: int, n: int)
    requires
        orders_range(keys, a, lo, hi),
        orders_range(keys, b, lo, hi),
        0 <= n <= hi - lo,
    ensures
        forall|t: int| 0 <= t < n ==> a[t] == b[t],
    decreases n,
{
    if n > 0 {
        lemma_orders_agree(keys, a, b, lo, hi, n - 1);
        let k = n - 1;
        let x = a[k];
        let y = b[k];
        if x != y {
            assert(b.contains(x));
            let m = choose|m: int| 0 <= m < b.len() && b[m] == x;
            assert(a.contains(y));
            let w = choose|w: int| 0 <= w < a.len() && a[w] == y;
            if m < k {
                assert(drawn_before(keys, a[m] as int, a[k] as int));
            } else if w < k {
                assert(drawn_before(keys, b[w] as int, b[k] as int));
            } else {
                assert(drawn_before(keys, b[k] as int, b[m] as int));
                assert(drawn_before(keys, a[k] as int, a[w] as int));
            }
        }
    }
}

/// The polygons of a scene have one drawing order and no other.
pub proof fn lemma_draw_order_unique(keys: Seq<u64>, a: Seq<usize>, b: Seq<usize>)
    requires
        is_draw_order(keys, a),
        is_draw_order(keys, b),
    ensures
        a == b,
{
    lemma_orders_agree(keys, a, b, 0, keys.len() as int, keys.len() as int);
    assert(a =~= b);
}

/// Where polygon `x` stands in a list of polygons that come before it in
/// the scene: behind those that are as far as it is or farther, before the
/// first that is nearer.
proof fn lemma_place(keys: Seq<u64>, order: Seq<usize>, x: int, from: int) -> (p: int)
    requires
        0 <= from <= order.len(),
        forall|k: int|
            0 <= k < from ==> total_order_key(keys[#[trigger] order[k] as int])
                >= total_order_key(keys[x]),
    ensures
        from <= p <= order.len(),
        forall|k: int|
            0 <= k < p ==> total_order_key(keys[#[trigger] order[k] as int]) >= total_order_key(
                keys[x],
            ),
        p < order.len() ==> total_order_key(keys[order[p] as int]) < total_order_key(keys[x]),
    decreases order.len() - from,
{
    if from == order.len() || total_order_key(keys[order[from] as int]) < total_order_key(
        keys[x],
    ) {
        from
    } else {
        lemma_place(keys, order, x, from + 1)
    }
}

/// The first `hi` polygons of a scene can be put in drawing order.
proof fn lemma_range_has_order(keys: Seq<u64>, hi: int) -> (order: Seq<usize>)
    requires
        0 <= hi <= keys.len(),
        hi <= usize::MAX,
    ensures
        orders_range(keys, order, 0, hi),
    decreases hi,
{
    if hi == 0 {
        Seq::empty()
    } else {
        let x = hi - 1;
        let prev = lemma_range_has_order(keys, x);
        let p = lemma_place(keys, prev, x, 0);
        let order = prev.insert(p, x as usize);
        assert forall|k: int, l: int| 0 <= k < l < order.len() implies drawn_before(
            keys,
            order[k] as int,
            order[l] as int,
        ) by {
            if l < p {
                assert(order[k] == prev[k] && order[l] == prev[l]);
            } else if l == p {
                assert(order[k] == prev[k]);
            } else if k < p {
                assert(order[k] == prev[k] && order[l] == prev[l - 1]);
            } else if k == p {
                assert(order[l] == prev[l - 1]);
                if l - 1 > p {
                    assert(drawn_before(keys, prev[p] as int, prev[l - 1] as int));
                }
            } else {
                assert(order[k] == prev[k - 1] && order[l] == prev[l - 1]);
            }
        }
        assert forall|i: usize| 0 <= i < hi implies order.contains(i) by {
            if i == x {
                assert(order[p] == i);
            } else {
                assert(prev.contains(i));
                let w = choose|w: int| 0 <= w < prev.len() && prev[w] == i;
                if w < p {
                    assert(order[w] == i);
                } else {
                    assert(order[w + 1] == i);
                }
            }
        }
        assert forall|k: int| 0 <= k < order.len() implies 0 <= #[trigger] order[k] < hi by {
            if k < p {
                assert(order[k] == prev[k]);
            } else if k > p {
                assert(order[k] == prev[k - 1]);
            }
        }
        order
    }
}

/// Whatever the distances, the polygons of a scene have a drawing order,
/// and `draw_order_of` is it.
pub proof fn lemma_draw_order_exists(keys: Seq<u64>)
    requires
        keys.len() <= usize::MAX,
    ensures
        is_draw_order(keys, draw_order_of(keys)),
{
    let order = lemma_range_has_order(keys, keys.len() as int);
    assert(is_draw_order(keys, order));
}

/// Along the drawing order the distances never grow.
pub proof fn lemma_draw_order_descends(keys: Seq<u64>, order: Seq<usize>, k: int, l: int)
    requires
        is_draw_order(keys, order),
        0 <= k <= l < order.len(),
    ensures
        total_order_key(keys[order[k] as int]) >= total_order_key(keys[order[l] as int]),
{
    if k < l {
        assert(drawn_before(keys, order[k] as int, order[l] as int));
    }
}

/// Whether polygon `i` is drawn before polygon `j`.
fn comes_first(keys: &Vec<u64>, i: usize, j: usize) -> (r: bool)
    requires
        i < keys@.len(),
        j < keys@.len(),
    ensures
        r == drawn_before(keys@, i as int, j as int),
{
    let ki = total_order_rank(keys[i]);
    let kj = total_order_rank(keys[j]);
    ki > kj || (ki == kj && i < j)
}

/// Every entry of `s` from index `from` on is drawn after `x`.
spec fn precedes_rest(keys: Seq<u64>, x: usize, s: Seq<usize>, from: int) -> bool {
    forall|a: int| from <= a < s.len() ==> drawn_before(keys, x as int, #[trigger] s[a] as int)
}

/// Merges two ordered lists into one.
fn merge(keys: &Vec<u64>, left: &Vec<usize>, right: &Vec<usize>, Ghost(lo): Ghost<int>, Ghost(
    mid,
): Ghost<int>, Ghost(hi): Ghost<int>) -> (out: Vec<usize>)
    requires
        0 <= lo <= mid <= hi <= keys@.len(),
        orders_range(keys@, left@, lo, mid),
        orders_range(keys@, right@, mid, hi),
    ensures
        orders_range(keys@, out@, lo, hi),
{
    let mut out: Vec<usize> = Vec::new();
    let mut i: usize = 0;
    let mut j: usize = 0;
    while i < left.len() || j < right.len()
        invariant
            0 <= lo <= mid <= hi <= keys@.len(),
            orders_range(keys@, left@, lo, mid),
            orders_range(keys@, right@, mid, hi),
            i <= left@.len(),
            j <= right@.len(),
            out@.len() == i + j,
            forall|k: int| 0 <= k < out@.len() ==> lo <= #[trigger] out@[k] < hi,
            forall|k: int, l: int|
                0 <= k < l < out@.len() ==> drawn_before(keys@, out@[k] as int, out@[l] as int),
            forall|k: int|
                0 <= k < out@.len() ==> precedes_rest(keys@, #[trigger] out@[k], left@, i as int),
            forall|k: int|
                0 <= k < out@.len() ==> precedes_rest(keys@, #[trigger] out@[k], right@, j as int),
            forall|a: int| 0 <= a < i ==> out@.contains(#[trigger] left@[a]),
            forall|b: int| 0 <= b < j ==> out@.contains(#[trigger] right@[b]),
        decreases left@.len() - i + right@.len() - j,
    {
        let ghost before = out@;
        let take_left = if i == left.len() {
            false
        } else if j == right.len() {
            true
        } else {
            comes_first(keys, left[i], right[j])
        };
        if take_left {
            let x = left[i];
            proof {
                assert forall|a: int| i + 1 <= a < left@.len() implies drawn_before(
                    keys@,
                    x as int,
                    #[trigger] left@[a] as int,
                ) by {}
                assert forall|b: int| j <= b < right@.len() implies drawn_before(
                    keys@,
                    x as int,
                    #[trigger] right@[b] as int,
                ) by {
                    if b > j {
                        assert(drawn_before(keys@, right@[j as int] as int, right@[b] as int));
                    }
                }
                assert forall|k: int| 0 <= k < before.len() implies drawn_before(
                    keys@,
                    #[trigger] before[k] as int,
                    x as int,
                ) by {
                    assert(precedes_rest(keys@, before[k], left@, i as int));
                }
            }
            out.push(x);
            i += 1;
        } else {
            let x = right[j];
            proof {
                assert forall|b: int| j + 1 <= b < right@.len() implies drawn_before(
                    keys@,
                    x as int,
                    #[trigger] right@[b] as int,
                ) by {}
                assert forall|a: int| i <= a < left@.len() implies drawn_before(
                    keys@,
                    x as int,
                    #[trigger] left@[a] as int,
                ) by {
                    assert(left@[i as int] != x);
                    if a > i {
                        assert(drawn_before(keys@, left@[i as int] as int, left@[a] as int));
                    }
                }
                assert forall|k: int| 0 <= k < before.len() implies drawn_before(
                    keys@,
                    #[trigger] before[k] as int,
                    x as int,
                ) by {
                    assert(precedes_rest(keys@, before[k], right@, j as int));
                }
            }
            out.push(x);
            j += 1;
        }
        proof {
            assert forall|a: int| 0 <= a < i implies out@.contains(#[trigger] left@[a]) by {
                if before.contains(left@[a]) {
                    let w = choose|w: int| 0 <= w < before.len() && before[w] == left@[a];
                    assert(out@[w] == left@[a]);
                } else {
                    assert(out@[out@.len() - 1] == left@[a]);
                }
            }
            assert forall|b: int| 0 <= b < j implies out@.contains(#[trigger] right@[b]) by {
                if before.contains(right@[b]) {
                    let w = choose|w: int| 0 <= w < before.len() && before[w] == right@[b];
                    assert(out@[w] == right@[b]);
                } else {
                    assert(out@[out@.len() - 1] == right@[b]);
                }
            }
        }
    }
    proof {
        assert forall|x: usize| lo <= x < hi implies out@.contains(x) by {
            if x < mid {
                assert(left@.contains(x));
                let a = choose|a: int| 0 <= a < left@.len() && left@[a] == x;
                assert(out@.contains(left@[a]));
            } else {
                assert(right@.contains(x));
                let b = choose|b: int| 0 <= b < right@.len() && right@[b] == x;
                assert(out@.contains(right@[b]));
            }
        }
    }
    out
}

/// The indices from `lo` up to `hi` in drawing order, by merging.
fn order_range(keys: &Vec<u64>, lo: usize, hi: usize) -> (order: Vec<usize>)
    requires
        lo <= hi <= keys@.len(),
    ensures
        orders_range(keys@, order@, lo as int, hi as int),
    decreases hi - lo,
{
    let mut order: Vec<usize> = Vec::new();
    if hi - lo == 0 {
        return order;
    }
    if hi - lo == 1 {
        order.push(lo);
        proof {
            assert(order@[0] == lo);
            assert forall|i: usize| lo <= i < hi implies order@.contains(i) by {
                assert(order@[0] == i);
            }
        }
        return order;
    }
    let mid = lo + (hi - lo) / 2;
    let left = order_range(keys, lo, mid);
    let right = order_range(keys, mid, hi);
    merge(keys, &left, &right, Ghost(lo as int), Ghost(mid as int), Ghost(hi as int))
}

/// The drawing order of polygons whose distances from the camera are
/// `distances`, each the bit pattern of a double: the indices of the
/// polygons, the farthest first and the nearest last. Polygons at the same
/// distance keep the order that they have in the scene.
pub fn draw_order(distances: &Vec<u64>) -> (order: Vec<usize>)
    ensures
        is_draw_order(distances@, order@),
        order@ == draw_order_of(distances@),
{
    let order = order_range(distances, 0, distances.len());
    proof {
        assert(is_draw_order(distances@, order@));
        lemma_draw_order_unique(distances@, order@, draw_order_of(distances@));
    }
    order
}

} // verus!
