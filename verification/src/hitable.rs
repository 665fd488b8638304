//! Hit records and the list of a scene's objects.

use vstd::prelude::*;
use std::sync::Arc;
use crate::bounding_box::AxisAlignedBoundingBox;
use crate::material::{Material, MaterialType};
use crate::texture::{SolidColor, Texture};
use crate::scalar::Scalar;
use crate::vector::Vec3;

verus! {

/// What is known of the place where a ray met a surface.
#[derive(Clone)]
pub struct HitRecord {
    point: Vec3,
    normal: Vec3,
    t: Scalar,
    material: Material,
    front_face: bool,
    u: Scalar,
    v: Scalar,
}

impl HitRecord {
    /// The point hit.
    pub closed spec fn point_spec(&self) -> Vec3 {
        self.point
    }

    /// The surface normal, turned against the ray.
    pub closed spec fn normal_spec(&self) -> Vec3 {
        self.normal
    }

    /// The ray parameter of the hit.
    pub closed spec fn t_spec(&self) -> Scalar {
        self.t
    }

    /// The material of the surface.
    pub closed spec fn material_spec(&self) -> Material {
        self.material
    }

    /// Whether the ray came from outside.
    pub closed spec fn front_face_spec(&self) -> bool {
        self.front_face
    }

    /// The surface coordinates of the hit.
    pub closed spec fn uv_spec(&self) -> (Scalar, Scalar) {
        (self.u, self.v)
    }

    /// The record with the given parts.
    pub fn new(point: Vec3, normal: Vec3, t: Scalar, front_face: bool, material: Material, u: Scalar, v: Scalar) -> (r: Self)
        ensures
            r.point_spec() == point,
            r.normal_spec() == normal,
            r.t_spec() == t,
            r.front_face_spec() == front_face,
            r.material_spec() == material,
            r.uv_spec() == (u, v),
    {
        Self { point, normal, t, material, front_face, u, v }
    }

    /// Whether the ray comes from outside, and the normal turned against
    /// it. `outward` is the surface normal that points outward, `facing`
    /// the dot product of the ray's direction with it. The ray comes from
    /// outside where `facing` is negative.
    pub fn face_normal(facing: Scalar, outward: Vec3) -> (r: (bool, Vec3))
        ensures
            r.0 == facing.precedes(Scalar::from_bits_spec(0)),
            r.1 == if r.0 {
                outward
            } else {
                outward.flipped()
            },
    {
        let front_face = facing.lt(&Scalar::zero());
        let normal = if front_face {
            outward
        } else {
            outward.neg()
        };
        (front_face, normal)
    }

    /// The material of the surface.
    pub fn material(&self) -> (m: &Material)
        ensures
            *m == self.material_spec(),
    {
        &self.material
    }

    /// The point hit.
    pub fn point(&self) -> (p: &Vec3)
        ensures
            *p == self.point_spec(),
    {
        &self.point
    }

    /// The surface normal, turned against the ray.
    pub fn normal(&self) -> (n: &Vec3)
        ensures
            *n == self.normal_spec(),
    {
        &self.normal
    }

    /// The ray parameter of the hit.
    #[verifier::when_used_as_spec(t_spec)]
    pub fn t(&self) -> (t: Scalar)
        ensures
            t == self.t_spec(),
    {
        self.t
    }

    /// The surface coordinates of the hit.
    pub fn uv(&self) -> (uv: (Scalar, Scalar))
        ensures
            uv == self.uv_spec(),
    {
        (self.u, self.v)
    }

    /// The first surface coordinate.
    pub fn u(&self) -> (u: Scalar)
        ensures
            u == self.uv_spec().0,
    {
        self.u
    }

    /// The second surface coordinate.
    pub fn v(&self) -> (v: Scalar)
        ensures
            v == self.uv_spec().1,
    {
        self.v
    }

    /// Whether the ray came from outside.
    #[verifier::when_used_as_spec(front_face_spec)]
    pub fn front_face(&self) -> (f: bool)
        ensures
            f == self.front_face_spec(),
    {
        self.front_face
    }
}

impl Default for HitRecord {
    /// A record of nothing: a hit at the origin at parameter zero, from
    /// inside, on a diffuse surface of a dull purple.
    fn default() -> (r: Self)
        ensures
            r.point_spec() == Vec3::new_spec(Scalar::from_bits_spec(0), Scalar::from_bits_spec(0), Scalar::from_bits_spec(0)),
            r.normal_spec() == r.point_spec(),
            r.t_spec() == Scalar::from_bits_spec(0),
            !r.front_face_spec(),
            r.uv_spec() == (Scalar::from_bits_spec(0), Scalar::from_bits_spec(0)),
            r.material_spec().kind() == MaterialType::Lambertian,
            r.material_spec().texture() matches Texture::Solid(c) && c@@ == seq![
                Scalar::from_bits_spec(0x3fe0_0000_0000_0000),
                Scalar::from_bits_spec(0x3fd0_0000_0000_0000),
                Scalar::from_bits_spec(0x3fe8_0000_0000_0000),
            ],
    {
        let colour = SolidColor::from_rgb(
            Scalar::from_bits(0x3fe0_0000_0000_0000),
            Scalar::from_bits(0x3fd0_0000_0000_0000),
            Scalar::from_bits(0x3fe8_0000_0000_0000),
        );
        Self::new(
            Vec3::default(),
            Vec3::default(),
            Scalar::zero(),
            false,
            Material::new_lambertian(Arc::new(Texture::Solid(colour))),
            Scalar::zero(),
            Scalar::zero(),
        )
    }
}

/// What a search asks next of the scene. The answer is for its caller to
/// work out, with the ray that the search is made for.
#[derive(Clone, Copy, Debug)]
pub enum Query {
    /// Where does the ray first meet the object at `index` of the list,
    /// between the parameters `t_min` and `t_max`?
    Object { index: usize, t_min: Scalar, t_max: Scalar },
    /// Does the ray cross the box `bbox` between `t_min` and `t_max`?
    Bound { bbox: AxisAlignedBoundingBox, t_min: Scalar, t_max: Scalar },
}

/// The nearest hit found so far, and the limit that it sets on the hits
/// still to come.
pub struct Nearest {
    /// No later hit may lie beyond this parameter.
    pub limit: Scalar,
    /// The nearest hit so far.
    pub best: Option<HitRecord>,
}

/// What is known when a search within `[.., t_max]` begins.
pub open spec fn nothing_yet(t_max: Scalar) -> Nearest {
    Nearest { limit: t_max, best: None }
}

/// What is known after one more object has answered: a hit takes the
/// place of the nearest so far, and its parameter becomes the limit; a
/// miss leaves everything as it was.
pub open spec fn advance(st: Nearest, answer: Option<HitRecord>) -> Nearest {
    match answer {
        Some(rec) => Nearest { limit: rec.t_spec(), best: Some(rec) },
        None => st,
    }
}

/// What is known after the object `index` has been asked, where `hits`
/// says what each object answers to each query.
pub open spec fn probe(hits: spec_fn(usize, Scalar, Scalar) -> Option<HitRecord>, index: usize, t_min: Scalar, st: Nearest) -> Nearest {
    advance(st, hits(index, t_min, st.limit))
}

/// What is known after the first `count` objects of a list have been
/// asked in turn, each within the limit that the ones before it have set.
pub open spec fn scan(hits: spec_fn(usize, Scalar, Scalar) -> Option<HitRecord>, count: nat, t_min: Scalar, t_max: Scalar) -> Nearest
    decreases count,
{
    if count == 0 {
        nothing_yet(t_max)
    } else {
        probe(hits, (count - 1) as usize, t_min, scan(hits, (count - 1) as nat, t_min, t_max))
    }
}

/// The union of all the boxes, from the first on; none for an empty list
/// and for a list with an object that has no box.
pub open spec fn union_all(boxes: Seq<Option<AxisAlignedBoundingBox>>) -> Option<AxisAlignedBoundingBox>
    decreases boxes.len(),
{
    if boxes.len() == 0 {
        None
    } else if boxes.last() is None {
        None
    } else if boxes.len() == 1 {
        boxes.last()
    } else {
        match union_all(boxes.drop_last()) {
            Some(u) => Some(AxisAlignedBoundingBox::joined(u, boxes.last()->0)),
            None => None,
        }
    }
}

/// The objects of a scene, in order. Of each object the list holds its
/// bounding box over the shutter interval, or nothing where the object is
/// unbounded; the object itself stays with the caller, who knows it by its
/// place in the list.
pub struct HitList {
    objects: Vec<Option<AxisAlignedBoundingBox>>,
}

impl HitList {
    /// The boxes of the objects, in order.
    pub closed spec fn view(&self) -> Seq<Option<AxisAlignedBoundingBox>> {
        self.objects@
    }

    /// The empty list.
    pub fn new() -> (l: Self)
        ensures
            l@ == Seq::<Option<AxisAlignedBoundingBox>>::empty(),
    {
        Self { objects: Vec::new() }
    }

    /// Appends an object with the given box.
    pub fn add(&mut self, obj: Option<AxisAlignedBoundingBox>)
        ensures
            final(self)@ == old(self)@.push(obj),
    {
        self.objects.push(obj);
    }

    /// The boxes of the objects, in order.
    pub fn objects(&self) -> (v: &Vec<Option<AxisAlignedBoundingBox>>)
        ensures
            v@ == self@,
    {
        &self.objects
    }

    /// The boxes of the objects, to be changed in place.
    pub fn objects_mut(&mut self) -> (v: &mut Vec<Option<AxisAlignedBoundingBox>>)
        ensures
            v@ == old(self)@,
            final(self)@ == final(v)@,
    {
        &mut self.objects
    }

    /// The number of objects.
    pub fn len(&self) -> (n: usize)
        ensures
            n == self@.len(),
    {
        self.objects.len()
    }

    /// Whether the list has no object.
    pub fn is_empty(&self) -> (e: bool)
        ensures
            e == (self@.len() == 0),
    {
        self.objects.len() == 0
    }

    /// Begins the search for the nearest hit between `t_min` and `t_max`:
    /// the objects are asked in order, each within the limit that the
    /// nearest hit before it has set.
    pub fn hit(&self, t_min: Scalar, t_max: Scalar) -> (s: ListSearch)
        ensures
            s.position() == 0,
            s.total() == self@.len(),
            s.lower() == t_min,
            s.state() == nothing_yet(t_max),
    {
        ListSearch { next: 0, count: self.objects.len(), t_min, state: Nearest { limit: t_max, best: None } }
    }

    /// The box around all the objects; none for an empty list and for a
    /// list with an unbounded object.
    pub fn bounding_box(&self) -> (r: Option<AxisAlignedBoundingBox>)
        ensures
            r == union_all(self@),
    {
        if self.is_empty() {
            return None;
        }
        let mut output_box: Option<AxisAlignedBoundingBox> = None;
        let mut i: usize = 0;
        while i < self.objects.len()
            invariant
                i <= self.objects@.len(),
                i > 0 ==> output_box is Some,
                output_box == union_all(self.objects@.take(i as int)),
            decreases self.objects@.len() - i,
        {
            assert(self.objects@.take(i + 1).drop_last() == self.objects@.take(i as int));
            match self.objects[i] {
                Some(aabb) => {
                    output_box = match output_box {
                        None => Some(aabb),
                        Some(so_far) => Some(so_far.surrounding_box(&aabb)),
                    };
                },
                None => {
                    proof {
                        lemma_union_all_none(self@, i as int);
                    }
                    return None;
                },
            }
            i += 1;
        }
        assert(self.objects@.take(i as int) == self.objects@);
        output_box
    }
}

impl Default for HitList {
    /// The empty list.
    fn default() -> (l: Self)
        ensures
            l@ == Seq::<Option<AxisAlignedBoundingBox>>::empty(),
    {
        HitList::new()
    }
}

/// A list with an unbounded object has no box.
pub proof fn lemma_union_all_none(boxes: Seq<Option<AxisAlignedBoundingBox>>, i: int)
    requires
        0 <= i < boxes.len(),
        boxes[i] is None,
    ensures
        union_all(boxes) is None,
    decreases boxes.len(),
{
    if i < boxes.len() - 1 {
        lemma_union_all_none(boxes.drop_last(), i);
    }
}

/// A search through a list, one object after the other.
///
/// The caller asks [`ListSearch::query`] what to work out, works it out,
/// and hands the result to [`ListSearch::answer`], until no query is left.
/// Where every answer is what `hits` says of its query, the search that
/// has had `k` answers knows `scan(hits, k, t_min, t_max)`.
pub struct ListSearch {
    next: usize,
    count: usize,
    t_min: Scalar,
    state: Nearest,
}

impl ListSearch {
    /// How many objects have answered.
    pub closed spec fn position(&self) -> nat {
        self.next as nat
    }

    /// How many objects the list has.
    pub closed spec fn total(&self) -> nat {
        self.count as nat
    }

    /// The lower end of the interval searched.
    pub closed spec fn lower(&self) -> Scalar {
        self.t_min
    }

    /// What is known so far.
    pub closed spec fn state(&self) -> Nearest {
        self.state
    }

    /// The query that the search waits for, in contracts.
    pub open spec fn pending(&self) -> Option<Query> {
        if self.position() < self.total() {
            Some(Query::Object { index: self.position() as usize, t_min: self.lower(), t_max: self.state().limit })
        } else {
            None
        }
    }

    /// What to work out next: nothing when every object has answered.
    pub fn query(&self) -> (q: Option<Query>)
        ensures
            q == self.pending(),
    {
        if self.next < self.count {
            Some(Query::Object { index: self.next, t_min: self.t_min, t_max: self.state.limit })
        } else {
            None
        }
    }

    /// Takes the answer to the pending query. Without a pending query
    /// nothing changes.
    pub fn answer(&mut self, hit: Option<HitRecord>)
        ensures
            final(self).total() == old(self).total(),
            final(self).lower() == old(self).lower(),
            old(self).pending() is Some ==> final(self).position() == old(self).position() + 1
                && final(self).state() == advance(old(self).state(), hit),
            old(self).pending() is None ==> final(self).position() == old(self).position()
                && final(self).state() == old(self).state(),
    {
        if self.next < self.count {
            self.next = self.next + 1;
            match hit {
                Some(rec) => {
                    self.state = Nearest { limit: rec.t(), best: Some(rec) };
                },
                None => {},
            }
        }
    }

    /// The nearest hit found.
    pub fn finish(self) -> (r: Option<HitRecord>)
        ensures
            r == self.state().best,
    {
        self.state.best
    }
}

} // verus!
