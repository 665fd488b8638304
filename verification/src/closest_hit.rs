//! What the two searches find: a search through the hierarchy finds a hit
//! exactly when the search through the list does, and at the same
//! distance.

use vstd::prelude::*;
use crate::bounding_box::AxisAlignedBoundingBox;
use crate::bvh::{built_from, outcome, visit_child, visit_node, BvhChild, BvhNode};
use crate::hitable::{advance, nothing_yet, probe, scan, HitRecord, Nearest};
use crate::scalar::{Scalar, INFINITY_BITS};

verus! {

/// What the object `index` answers to the query between `t_min` and `lim`.
pub open spec fn reply(hits: spec_fn(usize, Scalar, Scalar) -> Option<HitRecord>, index: usize, t_min: Scalar, lim: Scalar) -> Option<HitRecord> {
    hits(index, t_min, lim)
}

/// Whether the ray crosses the box between `t_min` and `lim`.
pub open spec fn crossed(crossings: spec_fn(AxisAlignedBoundingBox, Scalar, Scalar) -> bool, bbox: AxisAlignedBoundingBox, t_min: Scalar, lim: Scalar) -> bool {
    crossings(bbox, t_min, lim)
}

/// The first hit of the object `index` from `t_min` on, however far.
pub open spec fn first_hit(hits: spec_fn(usize, Scalar, Scalar) -> Option<HitRecord>, index: usize, t_min: Scalar) -> Option<HitRecord> {
    hits(index, t_min, Scalar::from_bits_spec(INFINITY_BITS))
}

/// The hit `answer` where it lies at or before `lim`, and none elsewhere.
pub open spec fn within(answer: Option<HitRecord>, lim: Scalar) -> Option<HitRecord> {
    match answer {
        Some(r) => if r.t_spec().at_most(lim) {
            Some(r)
        } else {
            None
        },
        None => None,
    }
}

/// Whether each of the first `count` objects answers every query with its
/// first hit, where that lies within the limit, and with none elsewhere;
/// and no first hit lies at a NaN.
pub open spec fn nearest_first(hits: spec_fn(usize, Scalar, Scalar) -> Option<HitRecord>, count: nat, t_min: Scalar) -> bool {
    &&& forall|i: usize, lim: Scalar|
        i < count && !lim.nan() ==> #[trigger] reply(hits, i, t_min, lim) == within(first_hit(hits, i, t_min), lim)
    &&& forall|i: usize|
        i < count ==> ((#[trigger] first_hit(hits, i, t_min)) matches Some(r) ==> !r.t_spec().nan())
}

/// The objects below a child, in the order in which a search meets them.
pub open spec fn leaves(c: BvhChild) -> Seq<usize>
    decreases c,
{
    match c {
        BvhChild::Object(i) => seq![i],
        BvhChild::Node(n) => leaves(n.left) + leaves(n.right),
    }
}

/// Whether the boxes bound what is below them: wherever an object below a
/// node answers a query with a hit, the ray crosses the node's box within
/// the same limit.
pub open spec fn bounds_hold(
    c: BvhChild,
    hits: spec_fn(usize, Scalar, Scalar) -> Option<HitRecord>,
    crossings: spec_fn(AxisAlignedBoundingBox, Scalar, Scalar) -> bool,
    t_min: Scalar,
) -> bool
    decreases c,
{
    match c {
        BvhChild::Object(_) => true,
        BvhChild::Node(n) => {
            &&& forall|k: int, lim: Scalar|
                0 <= k < leaves(c).len() && (#[trigger] reply(hits, leaves(c)[k], t_min, lim)) is Some ==> crossed(
                    crossings,
                    n.bbox,
                    t_min,
                    lim,
                )
            &&& bounds_hold(n.left, hits, crossings, t_min)
            &&& bounds_hold(n.right, hits, crossings, t_min)
        },
    }
}

/// What is known after the objects of `s` have been asked in turn.
pub open spec fn ask_all(s: Seq<usize>, hits: spec_fn(usize, Scalar, Scalar) -> Option<HitRecord>, t_min: Scalar, st: Nearest) -> Nearest
    decreases s.len(),
{
    if s.len() == 0 {
        st
    } else {
        probe(hits, s.last(), t_min, ask_all(s.drop_last(), hits, t_min, st))
    }
}

/// Whether `r` is the first hit of one of the objects of `s`.
pub open spec fn from_one_of(s: Seq<usize>, hits: spec_fn(usize, Scalar, Scalar) -> Option<HitRecord>, t_min: Scalar, r: HitRecord) -> bool {
    exists|k: int| 0 <= k < s.len() && #[trigger] first_hit(hits, s[k], t_min) == Some(r)
}

/// Whether two answers agree: both are none, or both are hits at the same
/// distance.
pub open spec fn same_distance(a: Option<HitRecord>, b: Option<HitRecord>) -> bool {
    match (a, b) {
        (None, None) => true,
        (Some(x), Some(y)) => x.t_spec().same_number(y.t_spec()),
        _ => false,
    }
}

/// The search through a hierarchy starts with the root alone on its stack,
/// and so with the outcome that `visit_node` gives.
pub proof fn lemma_outcome_at_start(
    root: BvhNode,
    hits: spec_fn(usize, Scalar, Scalar) -> Option<HitRecord>,
    crossings: spec_fn(AxisAlignedBoundingBox, Scalar, Scalar) -> bool,
    t_min: Scalar,
    st: Nearest,
)
    ensures
        outcome(seq![BvhChild::Node(Box::new(root))], hits, crossings, t_min, st) == visit_node(
            root,
            hits,
            crossings,
            t_min,
            st,
        ),
{
    let stack = seq![BvhChild::Node(Box::new(root))];
    assert(stack.drop_last().len() == 0);
    assert(outcome(stack.drop_last(), hits, crossings, t_min, visit_child(stack.last(), hits, crossings, t_min, st))
        == visit_child(stack.last(), hits, crossings, t_min, st));
}

/// An object's answer, taken as `hits` gives it, leaves the outcome of the
/// search as it was.
pub proof fn lemma_object_answer_keeps_outcome(
    stack: Seq<BvhChild>,
    hits: spec_fn(usize, Scalar, Scalar) -> Option<HitRecord>,
    crossings: spec_fn(AxisAlignedBoundingBox, Scalar, Scalar) -> bool,
    t_min: Scalar,
    st: Nearest,
)
    requires
        stack.len() > 0,
        stack.last() is Object,
    ensures
        outcome(stack.drop_last(), hits, crossings, t_min, advance(st, hits(stack.last()->Object_0, t_min, st.limit)))
            == outcome(stack, hits, crossings, t_min, st),
{
}

/// The answer about a box, taken as `crossings` gives it, leaves the
/// outcome of the search as it was.
pub proof fn lemma_bound_answer_keeps_outcome(
    stack: Seq<BvhChild>,
    hits: spec_fn(usize, Scalar, Scalar) -> Option<HitRecord>,
    crossings: spec_fn(AxisAlignedBoundingBox, Scalar, Scalar) -> bool,
    t_min: Scalar,
    st: Nearest,
)
    requires
        stack.len() > 0,
        stack.last() is Node,
    ensures
        ({
            let n = stack.last()->Node_0;
            let next = if crossings(n.bbox, t_min, st.limit) {
                stack.drop_last().push(n.right).push(n.left)
            } else {
                stack.drop_last()
            };
            outcome(next, hits, crossings, t_min, st) == outcome(stack, hits, crossings, t_min, st)
        }),
{
    let n = stack.last()->Node_0;
    let rest = stack.drop_last();
    if crossings(n.bbox, t_min, st.limit) {
        let one = rest.push(n.right);
        let two = one.push(n.left);
        assert(two.drop_last() == one);
        assert(one.drop_last() == rest);
        assert(two.last() == n.left);
        assert(one.last() == n.right);
        let after_left = visit_child(n.left, hits, crossings, t_min, st);
        assert(outcome(two, hits, crossings, t_min, st) == outcome(one, hits, crossings, t_min, after_left));
    }
}

proof fn lemma_ask_all_concat(a: Seq<usize>, b: Seq<usize>, hits: spec_fn(usize, Scalar, Scalar) -> Option<HitRecord>, t_min: Scalar, st: Nearest)
    ensures
        ask_all(a + b, hits, t_min, st) == ask_all(b, hits, t_min, ask_all(a, hits, t_min, st)),
    decreases b.len(),
{
    if b.len() == 0 {
        assert(a + b == a);
    } else {
        assert((a + b).drop_last() == a + b.drop_last());
        assert((a + b).last() == b.last());
        lemma_ask_all_concat(a, b.drop_last(), hits, t_min, st);
    }
}

proof fn lemma_ask_all_misses(s: Seq<usize>, hits: spec_fn(usize, Scalar, Scalar) -> Option<HitRecord>, t_min: Scalar, st: Nearest)
    requires
        forall|k: int| 0 <= k < s.len() ==> (#[trigger] reply(hits, s[k], t_min, st.limit)) is None,
    ensures
        ask_all(s, hits, t_min, st) == st,
    decreases s.len(),
{
    if s.len() > 0 {
        let front = s.drop_last();
        assert forall|k: int| 0 <= k < front.len() implies (#[trigger] reply(hits, front[k], t_min, st.limit)) is None by {
            assert(front[k] == s[k]);
        }
        lemma_ask_all_misses(front, hits, t_min, st);
        assert(reply(hits, s[s.len() - 1], t_min, st.limit) is None);
    }
}

/// Where the boxes bound what is below them, going through a child comes
/// to the same as asking the objects below it in turn.
pub proof fn lemma_visit_asks_all(
    c: BvhChild,
    hits: spec_fn(usize, Scalar, Scalar) -> Option<HitRecord>,
    crossings: spec_fn(AxisAlignedBoundingBox, Scalar, Scalar) -> bool,
    t_min: Scalar,
    st: Nearest,
)
    requires
        bounds_hold(c, hits, crossings, t_min),
    ensures
        visit_child(c, hits, crossings, t_min, st) == ask_all(leaves(c), hits, t_min, st),
    decreases c,
{
    match c {
        BvhChild::Object(i) => {
            let s = seq![i];
            assert(s.drop_last().len() == 0);
            assert(s.last() == i);
            assert(ask_all(s.drop_last(), hits, t_min, st) == st);
            assert(ask_all(s, hits, t_min, st) == probe(hits, i, t_min, st));
        },
        BvhChild::Node(n) => {
            if crossings(n.bbox, t_min, st.limit) {
                let after_left = visit_child(n.left, hits, crossings, t_min, st);
                lemma_visit_asks_all(n.left, hits, crossings, t_min, st);
                lemma_visit_asks_all(n.right, hits, crossings, t_min, after_left);
                lemma_ask_all_concat(leaves(n.left), leaves(n.right), hits, t_min, st);
            } else {
                assert forall|k: int| 0 <= k < leaves(c).len() implies (#[trigger] reply(
                    hits,
                    leaves(c)[k],
                    t_min,
                    st.limit,
                )) is None by {
                    if reply(hits, leaves(c)[k], t_min, st.limit) is Some {
                        assert(crossed(crossings, n.bbox, t_min, st.limit));
                    }
                }
                lemma_ask_all_misses(leaves(c), hits, t_min, st);
            }
        },
    }
}

/// What asking the objects of `s` in turn comes to, where each answers
/// with its first hit within the limit: the limit only falls; it ends at
/// or before every first hit; what is known either stays as it was or ends
/// with the first hit of one of the objects, at the limit; and a first
/// hit within the starting limit is never lost.
pub proof fn lemma_ask_all_finds_nearest(
    s: Seq<usize>,
    hits: spec_fn(usize, Scalar, Scalar) -> Option<HitRecord>,
    count: nat,
    t_min: Scalar,
    st: Nearest,
)
    requires
        nearest_first(hits, count, t_min),
        forall|k: int| 0 <= k < s.len() ==> #[trigger] s[k] < count,
        !st.limit.nan(),
    ensures
        ({
            let r = ask_all(s, hits, t_min, st);
            &&& r.limit.at_most(st.limit)
            &&& forall|k: int|
                0 <= k < s.len() ==> ((#[trigger] first_hit(hits, s[k], t_min)) matches Some(h) ==> r.limit.at_most(
                    h.t_spec(),
                ))
            &&& r == st || (r.best matches Some(h) && h.t_spec() == r.limit && from_one_of(s, hits, t_min, h))
            &&& forall|k: int|
                0 <= k < s.len() && within(#[trigger] first_hit(hits, s[k], t_min), st.limit) is Some ==> r.best is Some
        }),
    decreases s.len(),
{
    if s.len() > 0 {
        let front = s.drop_last();
        let i = s.last();
        assert(s[s.len() - 1] < count);
        assert forall|k: int| 0 <= k < front.len() implies #[trigger] front[k] < count by {
            assert(front[k] == s[k]);
        }
        lemma_ask_all_finds_nearest(front, hits, count, t_min, st);
        let mid = ask_all(front, hits, t_min, st);
        let r = ask_all(s, hits, t_min, st);
        assert(r == probe(hits, i, t_min, mid));
        assert(reply(hits, i, t_min, mid.limit) == within(first_hit(hits, i, t_min), mid.limit));
        let first = first_hit(hits, i, t_min);
        assert(first matches Some(h) ==> !h.t_spec().nan());
        assert forall|k: int| 0 <= k < s.len() implies ((#[trigger] first_hit(hits, s[k], t_min)) matches Some(h)
            ==> r.limit.at_most(h.t_spec())) by {
            if k < front.len() {
                assert(front[k] == s[k]);
            }
        }
        assert forall|k: int| 0 <= k < s.len() && within(#[trigger] first_hit(hits, s[k], t_min), st.limit) is Some
            implies r.best is Some by {
            if k < front.len() {
                assert(front[k] == s[k]);
            }
        }
        if r != st {
            if r == mid {
                let h = mid.best->0;
                let k = choose|k: int| 0 <= k < front.len() && #[trigger] first_hit(hits, front[k], t_min) == Some(h);
                assert(front[k] == s[k]);
                assert(from_one_of(s, hits, t_min, h));
            } else {
                let h = r.best->0;
                assert(first_hit(hits, s[s.len() - 1], t_min) == Some(h));
                assert(from_one_of(s, hits, t_min, h));
            }
        }
    }
}

/// The objects below a hierarchy over the span from `start` up to `end`
/// are the objects of that span, each of them.
pub proof fn lemma_leaves_of_built(n: BvhNode, boxes: Seq<Option<AxisAlignedBoundingBox>>, start: int, end: int)
    requires
        built_from(n, boxes, start, end),
    ensures
        forall|k: int| 0 <= k < leaves(BvhChild::Node(Box::new(n))).len() ==> start <= #[trigger] leaves(BvhChild::Node(Box::new(n)))[k] < end,
        forall|i: usize| start <= i < end ==> #[trigger] leaves(BvhChild::Node(Box::new(n))).contains(i),
    decreases n,
{
    let all = leaves(BvhChild::Node(Box::new(n)));
    let a = leaves(n.left);
    let b = leaves(n.right);
    assert(all == a + b);
    if end - start == 2 {
        assert(a.len() == 1 && b.len() == 1);
        assert(all[0] == a[0] && all[1] == b[0]);
        assert(start <= a[0] < end && start <= b[0] < end);
        assert forall|k: int| 0 <= k < all.len() implies start <= #[trigger] all[k] < end by {
            assert(k == 0 || k == 1);
        }
        assert forall|i: usize| start <= i < end implies #[trigger] all.contains(i) by {
            if all[0] == i {
            } else {
                assert(all[1] == i);
            }
        }
    } else {
        let mid = start + (end - start) / 2;
        let l = n.left->Node_0;
        let r = n.right->Node_0;
        lemma_leaves_of_built(*l, boxes, start, mid);
        lemma_leaves_of_built(*r, boxes, mid, end);
        assert(leaves(BvhChild::Node(Box::new(*l))) == a);
        assert(leaves(BvhChild::Node(Box::new(*r))) == b);
        assert forall|k: int| 0 <= k < all.len() implies start <= #[trigger] all[k] < end by {
            if k < a.len() {
                assert(all[k] == a[k]);
            } else {
                assert(all[k] == b[k - a.len()]);
            }
        }
        assert forall|i: usize| start <= i < end implies #[trigger] all.contains(i) by {
            if i < mid {
                assert(a.contains(i));
                let k = choose|k: int| 0 <= k < a.len() && a[k] == i;
                assert(all[k] == i);
            } else {
                assert(b.contains(i));
                let k = choose|k: int| 0 <= k < b.len() && b[k] == i;
                assert(all[a.len() + k] == i);
            }
        }
    }
}

/// The first `count` places of a list, in order.
pub open spec fn places(count: nat) -> Seq<usize> {
    Seq::new(count, |i: int| i as usize)
}

proof fn lemma_scan_asks_all(hits: spec_fn(usize, Scalar, Scalar) -> Option<HitRecord>, count: nat, t_min: Scalar, t_max: Scalar)
    requires
        count <= usize::MAX,
    ensures
        scan(hits, count, t_min, t_max) == ask_all(places(count), hits, t_min, nothing_yet(t_max)),
    decreases count,
{
    if count > 0 {
        lemma_scan_asks_all(hits, (count - 1) as nat, t_min, t_max);
        assert(places(count).drop_last() == places((count - 1) as nat));
        assert(places(count).last() == (count - 1) as usize);
    }
}

/// The search through a hierarchy and the search through the list it was
/// built over agree: the one finds a hit exactly when the other does, and
/// at the same distance.
///
/// This holds of a scene in which the boxes bound what is below them and
/// each object answers a query with its first hit where that lies within
/// the limit. In any other scene the hierarchy may leave out an object
/// that the list would have found.
pub proof fn lemma_hierarchy_agrees_with_list(
    root: BvhNode,
    boxes: Seq<Option<AxisAlignedBoundingBox>>,
    hits: spec_fn(usize, Scalar, Scalar) -> Option<HitRecord>,
    crossings: spec_fn(AxisAlignedBoundingBox, Scalar, Scalar) -> bool,
    t_min: Scalar,
    t_max: Scalar,
)
    requires
        built_from(root, boxes, 0, boxes.len() as int),
        boxes.len() <= usize::MAX,
        !t_max.nan(),
        nearest_first(hits, boxes.len(), t_min),
        bounds_hold(BvhChild::Node(Box::new(root)), hits, crossings, t_min),
    ensures
        same_distance(
            visit_node(root, hits, crossings, t_min, nothing_yet(t_max)).best,
            scan(hits, boxes.len(), t_min, t_max).best,
        ),
{
    let count = boxes.len();
    let st = nothing_yet(t_max);
    let tree = BvhChild::Node(Box::new(root));
    let s1 = leaves(tree);
    let s2 = places(count);
    lemma_visit_asks_all(tree, hits, crossings, t_min, st);
    lemma_scan_asks_all(hits, count, t_min, t_max);
    lemma_leaves_of_built(root, boxes, 0, count as int);
    assert forall|k: int| 0 <= k < s1.len() implies #[trigger] s1[k] < count by {}
    lemma_ask_all_finds_nearest(s1, hits, count, t_min, st);
    lemma_ask_all_finds_nearest(s2, hits, count, t_min, st);
    let a = ask_all(s1, hits, t_min, st);
    let b = ask_all(s2, hits, t_min, st);
    if a.best is Some {
        let h = a.best->0;
        let k = choose|k: int| 0 <= k < s1.len() && #[trigger] first_hit(hits, s1[k], t_min) == Some(h);
        let i = s1[k];
        assert(s2[i as int] == i);
        assert(within(first_hit(hits, s2[i as int], t_min), st.limit) is Some);
        assert(b.best is Some);
        assert(b.limit.at_most(h.t_spec())) by {
            assert(first_hit(hits, s2[i as int], t_min) matches Some(x) ==> b.limit.at_most(x.t_spec()));
        }
    }
    if b.best is Some {
        let h = b.best->0;
        let k = choose|k: int| 0 <= k < s2.len() && #[trigger] first_hit(hits, s2[k], t_min) == Some(h);
        let i = s2[k];
        assert(i == k);
        assert(s1.contains(i));
        let k1 = choose|k1: int| 0 <= k1 < s1.len() && s1[k1] == i;
        assert(within(first_hit(hits, s1[k1], t_min), st.limit) is Some);
        assert(a.best is Some);
        assert(a.limit.at_most(h.t_spec())) by {
            assert(first_hit(hits, s1[k1], t_min) matches Some(x) ==> a.limit.at_most(x.t_spec()));
        }
    }
}

} // verus!
