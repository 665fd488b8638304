//! The bounding volume hierarchy: a binary tree of boxes over the objects
//! of a list, by which a search leaves out what the ray cannot meet.

use vstd::prelude::*;
use crate::bounding_box::AxisAlignedBoundingBox;
use crate::hitable::{advance, nothing_yet, probe, HitList, HitRecord, Nearest, Query};
use crate::random::random_int;
use crate::scalar::Scalar;

verus! {

/// What hangs below a node: an object of the list, known by its place
/// there, or another node.
pub enum BvhChild {
    /// The object at this place of the list.
    Object(usize),
    /// A subtree.
    Node(Box<BvhNode>),
}

/// A node of the hierarchy: two children and the box around both.
pub struct BvhNode {
    /// The child that a search visits first.
    pub left: BvhChild,
    /// The child that a search visits second.
    pub right: BvhChild,
    /// The box around everything below this node.
    pub bbox: AxisAlignedBoundingBox,
}

/// The spans of a list over which a hierarchy can be built: two objects, or
/// twice such a span. They are the powers of two from two on.
pub open spec fn balanced(span: nat) -> bool
    decreases span,
{
    span == 2 || (span > 2 && span % 2 == 0 && balanced(span / 2))
}

/// The box of a child: that of the object in the list, or that of the node.
pub open spec fn child_box(c: BvhChild, boxes: Seq<Option<AxisAlignedBoundingBox>>) -> AxisAlignedBoundingBox {
    match c {
        BvhChild::Object(i) => boxes[i as int]->0,
        BvhChild::Node(n) => n.bbox,
    }
}

/// Whether `a` comes before `b` along `axis`: whether the low corner of `a`
/// has the smaller coordinate there.
pub open spec fn comes_first(a: AxisAlignedBoundingBox, b: AxisAlignedBoundingBox, axis: int) -> bool {
    a.low()@[axis].precedes(b.low()@[axis])
}

/// Whether a node over the two objects at `start` and `start + 1` has them
/// in the order that `axis` gives: the object at `start` on the left where
/// its box comes first along the axis, on the right elsewhere.
pub open spec fn pair_along(n: BvhNode, boxes: Seq<Option<AxisAlignedBoundingBox>>, start: int, axis: int) -> bool {
    if comes_first(boxes[start]->0, boxes[start + 1]->0, axis) {
        n.left == BvhChild::Object(start as usize) && n.right == BvhChild::Object((start + 1) as usize)
    } else {
        n.left == BvhChild::Object((start + 1) as usize) && n.right == BvhChild::Object(start as usize)
    }
}

/// Whether `n` is a hierarchy over the objects from `start` up to `end` of a
/// list with the given boxes. Over two objects it is a node with both as
/// its children, ordered along one of the three axes. Over more it has a
/// hierarchy over the first half of the span on the left and one over the
/// second half on the right. The box of every node is the union of the
/// boxes of its children.
pub open spec fn built_from(n: BvhNode, boxes: Seq<Option<AxisAlignedBoundingBox>>, start: int, end: int) -> bool
    decreases n,
{
    &&& 0 <= start
    &&& start + 2 <= end <= boxes.len()
    &&& end <= usize::MAX
    &&& n.bbox == AxisAlignedBoundingBox::joined(child_box(n.left, boxes), child_box(n.right, boxes))
    &&& if end - start == 2 {
        pair_along(n, boxes, start, 0) || pair_along(n, boxes, start, 1) || pair_along(n, boxes, start, 2)
    } else {
        let mid = start + (end - start) / 2;
        &&& n.left matches BvhChild::Node(l) && built_from(*l, boxes, start, mid)
        &&& n.right matches BvhChild::Node(r) && built_from(*r, boxes, mid, end)
    }
}

/// What a search knows after it has gone through a child, where `hits`
/// says what each object answers and `crossings` which boxes the ray
/// crosses. An object is asked within the limit set so far. A node whose
/// box the ray does not cross within that limit is left out; of any other
/// the left child is gone through first, and the right child within the
/// limit that the left one has set.
pub open spec fn visit_child(
    c: BvhChild,
    hits: spec_fn(usize, Scalar, Scalar) -> Option<HitRecord>,
    crossings: spec_fn(AxisAlignedBoundingBox, Scalar, Scalar) -> bool,
    t_min: Scalar,
    st: Nearest,
) -> Nearest
    decreases c,
{
    match c {
        BvhChild::Object(i) => probe(hits, i, t_min, st),
        BvhChild::Node(n) => if crossings(n.bbox, t_min, st.limit) {
            visit_child(n.right, hits, crossings, t_min, visit_child(n.left, hits, crossings, t_min, st))
        } else {
            st
        },
    }
}

/// What a search knows after it has gone through the node `n`.
pub open spec fn visit_node(
    n: BvhNode,
    hits: spec_fn(usize, Scalar, Scalar) -> Option<HitRecord>,
    crossings: spec_fn(AxisAlignedBoundingBox, Scalar, Scalar) -> bool,
    t_min: Scalar,
    st: Nearest,
) -> Nearest {
    visit_child(BvhChild::Node(Box::new(n)), hits, crossings, t_min, st)
}

/// The number of nodes and objects in and below a child.
pub open spec fn size(c: BvhChild) -> nat
    decreases c,
{
    match c {
        BvhChild::Object(_) => 1,
        BvhChild::Node(n) => 1 + size(n.left) + size(n.right),
    }
}

/// The number of nodes and objects in and below the children of a stack:
/// no search asks more queries than this.
pub open spec fn work(stack: Seq<BvhChild>) -> nat
    decreases stack.len(),
{
    if stack.len() == 0 {
        0
    } else {
        work(stack.drop_last()) + size(stack.last())
    }
}

/// A child on a stack gives way to its own two children, or to nothing,
/// and the work left shrinks either way.
pub proof fn lemma_work_shrinks(stack: Seq<BvhChild>)
    requires
        stack.len() > 0,
    ensures
        work(stack.drop_last()) < work(stack),
        stack.last() matches BvhChild::Node(n) ==> work(stack.drop_last().push(n.right).push(n.left)) < work(stack),
{
    match stack.last() {
        BvhChild::Object(_) => {},
        BvhChild::Node(n) => {
            let one = stack.drop_last().push(n.right);
            let two = one.push(n.left);
            assert(one.drop_last() == stack.drop_last());
            assert(one.last() == n.right);
            assert(two.drop_last() == one);
            assert(two.last() == n.left);
            assert(work(one) == work(stack.drop_last()) + size(n.right));
            assert(work(two) == work(one) + size(n.left));
            assert(size(stack.last()) == 1 + size(n.left) + size(n.right));
        },
    }
}

/// What a search will know at its end, where it knows `st` now and has
/// still to go through the children in `stack`, the last of them first.
pub open spec fn outcome(
    stack: Seq<BvhChild>,
    hits: spec_fn(usize, Scalar, Scalar) -> Option<HitRecord>,
    crossings: spec_fn(AxisAlignedBoundingBox, Scalar, Scalar) -> bool,
    t_min: Scalar,
    st: Nearest,
) -> Nearest
    decreases stack.len(),
{
    if stack.len() == 0 {
        st
    } else {
        outcome(stack.drop_last(), hits, crossings, t_min, visit_child(stack.last(), hits, crossings, t_min, st))
    }
}

/// Whether `a` comes before `b` along `axis`.
pub fn box_compare(a: &AxisAlignedBoundingBox, b: &AxisAlignedBoundingBox, axis: usize) -> (r: bool)
    requires
        axis < 3,
    ensures
        r == comes_first(*a, *b, axis as int),
{
    a.min().get(axis).lt(&b.min().get(axis))
}

/// Whether `a` comes before `b` along the first axis.
pub fn box_x_compare(a: &AxisAlignedBoundingBox, b: &AxisAlignedBoundingBox) -> (r: bool)
    ensures
        r == comes_first(*a, *b, 0),
{
    box_compare(a, b, 0)
}

/// Whether `a` comes before `b` along the second axis.
pub fn box_y_compare(a: &AxisAlignedBoundingBox, b: &AxisAlignedBoundingBox) -> (r: bool)
    ensures
        r == comes_first(*a, *b, 1),
{
    box_compare(a, b, 1)
}

/// Whether `a` comes before `b` along the third axis.
pub fn box_z_compare(a: &AxisAlignedBoundingBox, b: &AxisAlignedBoundingBox) -> (r: bool)
    ensures
        r == comes_first(*a, *b, 2),
{
    box_compare(a, b, 2)
}

impl BvhNode {
    /// Whether a hierarchy can be built over the objects from `start` up to
    /// `end` of `list`: the span lies in the list, is a power of two from
    /// two on, and every object in it has a box.
    pub open spec fn buildable(list: HitList, start: int, end: int) -> bool {
        &&& 0 <= start <= end <= list@.len()
        &&& balanced((end - start) as nat)
        &&& forall|i: int| start <= i < end ==> (#[trigger] list@[i]) is Some
    }

    /// Tells whether a hierarchy can be built over the objects from `start`
    /// up to `end` of `list`.
    pub fn accepts(list: &HitList, start: usize, end: usize) -> (r: bool)
        ensures
            r == Self::buildable(*list, start as int, end as int),
    {
        if start > end || end > list.len() {
            return false;
        }
        let mut span: usize = end - start;
        while span > 2 && span % 2 == 0
            invariant
                span >= 1 ==> (balanced(span as nat) <==> balanced((end - start) as nat)),
                span == 0 ==> end - start == 0,
            decreases span,
        {
            span = span / 2;
        }
        if span != 2 {
            return false;
        }
        let mut i: usize = start;
        while i < end
            invariant
                start <= i <= end <= list@.len(),
                forall|k: int| start <= k < i ==> (#[trigger] list@[k]) is Some,
            decreases end - i,
        {
            if list.objects()[i].is_none() {
                return false;
            }
            i += 1;
        }
        true
    }

    /// The node over the two objects at `start` and `start + 1` of `list`,
    /// in their order along `axis`: the object at `start` on the left where
    /// its box comes first along the axis, on the right elsewhere.
    pub fn leaf_pair(list: &HitList, start: usize, axis: usize) -> (node: Self)
        requires
            axis < 3,
            start + 2 <= list@.len(),
            list@[start as int] is Some,
            list@[start + 1] is Some,
        ensures
            pair_along(node, list@, start as int, axis as int),
            node.bbox == AxisAlignedBoundingBox::joined(child_box(node.left, list@), child_box(node.right, list@)),
    {
        let boxes = list.objects();
        assert(start + 2 <= boxes.len());
        let first: AxisAlignedBoundingBox = boxes[start].unwrap();
        let second: AxisAlignedBoundingBox = boxes[start + 1].unwrap();
        if box_compare(&first, &second, axis) {
            BvhNode {
                left: BvhChild::Object(start),
                right: BvhChild::Object(start + 1),
                bbox: first.surrounding_box(&second),
            }
        } else {
            BvhNode {
                left: BvhChild::Object(start + 1),
                right: BvhChild::Object(start),
                bbox: second.surrounding_box(&first),
            }
        }
    }

    /// The hierarchy over all the objects of `list`.
    pub fn new(list: &HitList) -> (node: Self)
        requires
            Self::buildable(*list, 0, list@.len() as int),
        ensures
            built_from(node, list@, 0, list@.len() as int),
    {
        Self::new_slice(list, 0, list.len())
    }

    /// The hierarchy over the objects from `start` up to `end` of `list`.
    /// Two objects become the children of one node, in their order along
    /// an axis drawn at random. A longer span is cut in the middle, as it
    /// stands, and each half gets a hierarchy of its own.
    pub fn new_slice(list: &HitList, start: usize, end: usize) -> (node: Self)
        requires
            Self::buildable(*list, start as int, end as int),
        ensures
            built_from(node, list@, start as int, end as int),
        decreases end - start,
    {
        let axis: i32 = random_int(0, 2);
        let object_span: usize = end - start;
        if object_span == 2 {
            Self::leaf_pair(list, start, axis as usize)
        } else {
            let mid: usize = start + object_span / 2;
            let left = Self::new_slice(list, start, mid);
            let right = Self::new_slice(list, mid, end);
            let bbox = left.bbox.surrounding_box(&right.bbox);
            BvhNode { left: BvhChild::Node(Box::new(left)), right: BvhChild::Node(Box::new(right)), bbox }
        }
    }

    /// The box around everything below this node.
    pub fn bounding_box(&self) -> (r: Option<AxisAlignedBoundingBox>)
        ensures
            r == Some(self.bbox),
    {
        Some(self.bbox)
    }

    /// Begins the search for the nearest hit between `t_min` and `t_max`.
    pub fn hit<'a>(&'a self, t_min: Scalar, t_max: Scalar) -> (s: BvhSearch<'a>)
        ensures
            s.lower() == t_min,
            s.state() == nothing_yet(t_max),
            s.stack() == seq![BvhChild::Node(Box::new(*self))],
    {
        let mut stack: Vec<Visit<'a>> = Vec::new();
        stack.push(Visit::Node(self));
        let s = BvhSearch { stack, t_min, state: Nearest { limit: t_max, best: None } };
        assert(s.stack() =~= seq![BvhChild::Node(Box::new(*self))]);
        s
    }
}

/// A child that a search has still to go through.
enum Visit<'a> {
    Object(usize),
    Node(&'a BvhNode),
}

impl<'a> Visit<'a> {
    spec fn child(self) -> BvhChild {
        match self {
            Visit::Object(i) => BvhChild::Object(i),
            Visit::Node(n) => BvhChild::Node(Box::new(*n)),
        }
    }

    fn of(c: &'a BvhChild) -> (v: Self)
        ensures
            v.child() == *c,
    {
        match c {
            BvhChild::Object(i) => Visit::Object(*i),
            BvhChild::Node(n) => Visit::Node(&**n),
        }
    }
}

/// A search through a hierarchy.
///
/// The caller asks [`BvhSearch::query`] what to work out, works it out, and
/// hands the result to [`BvhSearch::answer_object`] or
/// [`BvhSearch::answer_bound`], until no query is left. Where every
/// answer is what `hits` and `crossings` say of its query, `outcome` of the
/// stack and the state stays what it was at the first query: what
/// `visit_node` says of the root.
pub struct BvhSearch<'a> {
    stack: Vec<Visit<'a>>,
    t_min: Scalar,
    state: Nearest,
}

impl<'a> BvhSearch<'a> {
    /// The children still to go through, the last of them first.
    pub closed spec fn stack(&self) -> Seq<BvhChild> {
        self.stack@.map_values(|v: Visit<'a>| v.child())
    }

    /// The lower end of the interval searched.
    pub closed spec fn lower(&self) -> Scalar {
        self.t_min
    }

    /// What is known so far.
    pub closed spec fn state(&self) -> Nearest {
        self.state
    }

    /// How many queries the search can still ask at most.
    pub open spec fn remaining(&self) -> nat {
        work(self.stack())
    }

    /// The query that the search waits for, in contracts.
    pub open spec fn pending(&self) -> Option<Query> {
        if self.stack().len() == 0 {
            None
        } else {
            match self.stack().last() {
                BvhChild::Object(i) => Some(Query::Object { index: i, t_min: self.lower(), t_max: self.state().limit }),
                BvhChild::Node(n) => Some(Query::Bound { bbox: n.bbox, t_min: self.lower(), t_max: self.state().limit }),
            }
        }
    }

    /// What to work out next: nothing when the search is over.
    pub fn query(&self) -> (q: Option<Query>)
        ensures
            q == self.pending(),
    {
        let n = self.stack.len();
        if n == 0 {
            None
        } else {
            match &self.stack[n - 1] {
                Visit::Object(i) => Some(Query::Object { index: *i, t_min: self.t_min, t_max: self.state.limit }),
                Visit::Node(node) => Some(Query::Bound { bbox: node.bbox, t_min: self.t_min, t_max: self.state.limit }),
            }
        }
    }

    /// Takes the answer of the object that the pending query names.
    /// Where the pending query names no object nothing changes.
    pub fn answer_object(&mut self, hit: Option<HitRecord>)
        ensures
            final(self).lower() == old(self).lower(),
            old(self).pending() matches Some(Query::Object { .. }) ==> final(self).stack() == old(self).stack().drop_last()
                && final(self).state() == advance(old(self).state(), hit) && final(self).remaining() < old(
                self,
            ).remaining(),
            !(old(self).pending() matches Some(Query::Object { .. })) ==> final(self).stack() == old(self).stack()
                && final(self).state() == old(self).state(),
    {
        let n = self.stack.len();
        if n == 0 {
            return ;
        }
        let is_object = match &self.stack[n - 1] {
            Visit::Object(_) => true,
            Visit::Node(_) => false,
        };
        if is_object {
            proof {
                lemma_work_shrinks(self.stack());
            }
            let ghost before = self.stack@;
            self.stack.pop();
            assert(self.stack@ == before.drop_last());
            assert(self.stack() =~= old(self).stack().drop_last());
            match hit {
                Some(rec) => {
                    self.state = Nearest { limit: rec.t(), best: Some(rec) };
                },
                None => {},
            }
        }
    }

    /// Takes the answer to the pending query about a box: whether the ray
    /// crosses it. A box that is crossed gives way to the two children of
    /// its node, the left one to be gone through first; a box that is not
    /// is dropped with all below it. Where the pending query names no box
    /// nothing changes.
    pub fn answer_bound(&mut self, crossed: bool)
        ensures
            final(self).lower() == old(self).lower(),
            final(self).state() == old(self).state(),
            old(self).pending() is Some ==> match old(self).stack().last() {
                BvhChild::Node(n) => final(self).stack() == if crossed {
                    old(self).stack().drop_last().push(n.right).push(n.left)
                } else {
                    old(self).stack().drop_last()
                },
                BvhChild::Object(_) => final(self).stack() == old(self).stack(),
            },
            old(self).pending() is None ==> final(self).stack() == old(self).stack(),
            old(self).pending() matches Some(Query::Bound { .. }) ==> final(self).remaining() < old(self).remaining(),
    {
        let n = self.stack.len();
        if n == 0 {
            return ;
        }
        proof {
            lemma_work_shrinks(self.stack());
        }
        let ghost before = self.stack@;
        let top = self.stack.pop().unwrap();
        match top {
            Visit::Object(i) => {
                self.stack.push(Visit::Object(i));
                assert(self.stack@ =~= before);
            },
            Visit::Node(node) => {
                assert(self.stack() =~= old(self).stack().drop_last());
                if crossed {
                    self.stack.push(Visit::of(&node.right));
                    self.stack.push(Visit::of(&node.left));
                    assert(self.stack() =~= old(self).stack().drop_last().push(node.right).push(node.left));
                }
            },
        }
    }

    /// The nearest hit found.
    pub fn finish(self) -> (r: Option<HitRecord>)
        ensures
            r == self.state().best,
    {
        self.state.best
    }
}

} // verus!
