//! Shapes, the intersections of a ray with them, and the choice of the hit.
//!
//! A shape is named by its handle: its index in the list of the world that
//! owns it. Two shapes with equal content are still two shapes, and an
//! intersection belongs to the one whose handle it carries. It is good for
//! as long as that list stays unchanged.

use vstd::prelude::*;
use crate::arithmetic::{
    difference, product, quotient, square_root, steady, sum, Arithmetic, EPSILON_BITS,
};
use crate::error::Error;
use crate::light::Material;
use crate::matrix::{Matrix, MatrixView};
use crate::ray::{Ray, RayView};
use crate::scalar::Scalar;
use crate::tuple::{Tuple, TWO_BITS};

verus! {

/// The kinds of object.
#[derive(Clone, Copy, Debug, PartialEq, Eq, Structural)]
pub enum Object {
    /// The unit sphere centered on the origin.
    Sphere,
}

/// An object placed in the world by a transformation, with the material of
/// its surface.
#[derive(Debug)]
pub struct Shape {
    pub transform: Matrix,
    pub material: Material,
    pub object: Object,
}

impl Shape {
    /// The transformation is a well-formed 4x4 matrix.
    pub open spec fn wf(&self) -> bool {
        &&& self.transform@.wf()
        &&& self.transform@.nrows == 4
        &&& self.transform@.ncols == 4
    }

    /// Creates a shape with the identity transformation and the default
    /// material.
    pub fn new(object: Object) -> (s: Shape)
        ensures
            s.object == object,
            s.material == Material::spec_default(),
            s.transform@ == MatrixView::identity(4),
            s.wf(),
    {
        Shape { transform: Matrix::new_4x4_identity(), material: Material::default(), object }
    }

    /// Creates a shape with the given transformation and the default
    /// material.
    pub fn with_transform(object: Object, t: Matrix) -> (s: Shape)
        ensures
            s.object == object,
            s.material == Material::spec_default(),
            s.transform == t,
    {
        Shape { transform: t, material: Material::default(), object }
    }

    /// Creates a shape with the given transformation and material.
    pub fn with_transform_and_material(object: Object, transform: Matrix, material: Material) -> (s:
        Shape)
        ensures
            s.object == object,
            s.material == material,
            s.transform == transform,
    {
        Shape { transform, material, object }
    }
}

impl Clone for Shape {
    fn clone(&self) -> (s: Shape)
        ensures
            s.transform@ == self.transform@,
            s.material == self.material,
            s.object == self.object,
    {
        Shape { transform: self.transform.clone(), material: self.material, object: self.object }
    }
}

/// One crossing of a ray and a shape. Two crossings are equal if they have
/// the same shape and the same pattern as distance.
#[derive(Clone, Copy, Debug, PartialEq, Eq, Structural)]
pub struct Intersection {
    /// The handle of the shape that the ray crosses.
    pub shape: usize,
    /// The distance from the origin of the ray, negative behind it.
    pub distance: Scalar,
}

impl Intersection {
    /// The crossing lies at the origin of the ray or in front of it.
    pub open spec fn in_front(self) -> bool {
        Scalar::spec_zero().at_most(self.distance)
    }
}

/// The crossings of a ray with the object of shape `shape`, given the
/// discriminant of the quadratic equation of the crossing and its two roots:
/// none where the discriminant is below 0, else the two roots in the order
/// given.
pub open spec fn crossings(shape: usize, discriminant: Scalar, near: Scalar, far: Scalar) -> Seq<
    Intersection,
> {
    if discriminant.less(Scalar::spec_zero()) {
        Seq::empty()
    } else {
        seq![Intersection { shape, distance: near }, Intersection { shape, distance: far }]
    }
}

/// The pattern of the number 4.
pub const FOUR_BITS: u64 = 0x4010_0000_0000_0000;

impl Object {
    /// The discriminant of the quadratic equation `a t^2 + b t + c = 0`:
    /// `b b - 4 a c`.
    pub open spec fn discriminant<A: Arithmetic>(a: Scalar, b: Scalar, c: Scalar, ops: &A) -> Scalar {
        difference(
            ops,
            product(ops, b, b),
            product(ops, product(ops, Scalar { bits: FOUR_BITS }, a), c),
        )
    }

    /// The normal of the object at a point of its surface, in object space:
    /// for the sphere, the point less the center.
    pub open spec fn normal<A: Arithmetic>(self, pt: Tuple, ops: &A) -> Tuple {
        pt.subtracted(Tuple::spec_origin(), ops)
    }

    /// The crossings of a ray in object space with the object of shape
    /// `shape`. For the sphere they are the roots of `a t^2 + b t + c = 0`,
    /// where `o` is the origin of the ray less the center, `d` its
    /// direction, `a = d.d`, `b = 2 d.o` and `c = o.o - 1`: none where the
    /// discriminant is below 0, else `(-b - root) / 2a` and then
    /// `(-b + root) / 2a`, where `root` is the square root of the
    /// discriminant.
    pub open spec fn crossings<A: Arithmetic>(self, shape: usize, ray: RayView, ops: &A) -> Seq<
        Intersection,
    > {
        let two = Scalar { bits: TWO_BITS };
        let o = ray.origin.subtracted(Tuple::spec_origin(), ops);
        let d = ray.direction;
        let a = d.dot_product(d, ops);
        let b = product(ops, two, d.dot_product(o, ops));
        let c = difference(ops, o.dot_product(o, ops), Scalar::spec_one());
        let discriminant = Object::discriminant(a, b, c, ops);
        let root = square_root(ops, discriminant);
        let a2 = product(ops, two, a);
        crossings(
            shape,
            discriminant,
            quotient(ops, difference(ops, b.negated(), root), a2),
            quotient(ops, sum(ops, b.negated(), root), a2),
        )
    }

    /// The crossings of a ray in object space with the object of shape
    /// `shape`, the nearer first. A ray that touches the object has two
    /// equal crossings.
    pub fn intersections<A: Arithmetic>(&self, shape: usize, ray: &Ray, ops: &A) -> (xs: Vec<
        Intersection,
    >)
        requires
            steady(ops),
        ensures
            xs@ == self.crossings(shape, ray@, ops),
    {
        let mut xs: Vec<Intersection> = Vec::new();
        match self {
            Object::Sphere => {
                let two = Scalar::from_bits(TWO_BITS);
                let o = ray.origin().minus(&Tuple::origin(), ops);
                let d = ray.direction();
                let a = d.dot(d, ops);
                let b = ops.times(two, d.dot(&o, ops));
                let c = ops.minus(o.dot(&o, ops), Scalar::one());
                let discriminant = ops.minus(
                    ops.times(b, b),
                    ops.times(ops.times(Scalar::from_bits(FOUR_BITS), a), c),
                );
                if !discriminant.lt(Scalar::zero()) {
                    let root = ops.root(discriminant);
                    let a2 = ops.times(two, a);
                    xs.push(
                        Intersection { shape, distance: ops.over(ops.minus(b.neg(), root), a2) },
                    );
                    xs.push(
                        Intersection { shape, distance: ops.over(ops.plus(b.neg(), root), a2) },
                    );
                }
            },
        }
        assert(xs@ =~= self.crossings(shape, ray@, ops));
        xs
    }

    /// The normal of the object at a point of its surface, in object space.
    pub fn normal_at<A: Arithmetic>(&self, pt: &Tuple, ops: &A) -> (n: Tuple)
        requires
            steady(ops),
        ensures
            n == self.normal(*pt, ops),
    {
        match self {
            Object::Sphere => pt.minus(&Tuple::origin(), ops),
        }
    }
}

impl Shape {
    /// The crossings of a ray with the shape of handle `handle`: the ray
    /// is brought into object space by the inverse of the transformation of
    /// the shape, and crossed with the object there.
    #[verifier::opaque]
    pub open spec fn crossings<A: Arithmetic>(&self, handle: usize, ray: RayView, ops: &A) -> Result<
        Seq<Intersection>,
        Error,
    > {
        match self.transform@.transform_inverse(ops) {
            Ok(inverse) => match ray.transformed(inverse, ops) {
                Ok(local) => Ok(self.object.crossings(handle, local, ops)),
                Err(e) => Err(e),
            },
            Err(e) => Err(e),
        }
    }

    /// The normal in world space that belongs to the normal `local` in
    /// object space: the transpose of the inverse transformation applied to
    /// it, with `w` set to 0, brought to magnitude 1.
    pub open spec fn outward<A: Arithmetic>(inverse: MatrixView, local: Tuple, ops: &A) -> Result<
        Tuple,
        Error,
    > {
        inverse.transposed().applied(local, ops).with_component(3, Scalar::spec_zero()).unit(ops)
    }

    /// The normal of the shape at the point `world_pt` of its surface: the
    /// point is brought into object space by the inverse of the
    /// transformation, the normal of the object is taken there and
    /// brought back. There is none where `world_pt` is no point, where the
    /// transformation has no inverse or makes of the point no point, or
    /// where what comes back has no direction.
    #[verifier::opaque]
    pub open spec fn normal<A: Arithmetic>(&self, world_pt: Tuple, ops: &A) -> Result<
        Tuple,
        Error,
    > {
        if !world_pt.point() {
            Err(Error::InvariantViolation)
        } else {
            match self.transform@.transform_inverse(ops) {
                Ok(inverse) => if inverse.applied(world_pt, ops).point() {
                    Shape::outward(
                        inverse,
                        self.object.normal(inverse.applied(world_pt, ops), ops),
                        ops,
                    )
                } else {
                    Err(Error::InvariantViolation)
                },
                Err(e) => Err(e),
            }
        }
    }

    /// The crossings of a ray with the shape, whose handle is `handle`: none
    /// where the ray misses the shape, else two, the nearer first.
    pub fn intersections<A: Arithmetic>(&self, handle: usize, ray: &Ray, ops: &A) -> (r: Result<
        Vec<Intersection>,
        Error,
    >)
        requires
            steady(ops),
        ensures
            match r {
                Ok(xs) => self.crossings(handle, ray@, ops) == Ok::<Seq<Intersection>, Error>(xs@),
                Err(e) => self.crossings(handle, ray@, ops) == Err::<Seq<Intersection>, Error>(e),
            },
    {
        reveal(Shape::crossings);
        let inverse = match self.transform.transform_inverted(ops) {
            Ok(m) => m,
            Err(e) => {
                return Err(e);
            },
        };
        let local = match ray.transformed(&inverse, ops) {
            Ok(r) => r,
            Err(e) => {
                return Err(e);
            },
        };
        Ok(self.object.intersections(handle, &local, ops))
    }

    /// The normal of the shape at the point `world_pt` of its surface, in
    /// world space.
    pub fn normal_at<A: Arithmetic>(&self, world_pt: &Tuple, ops: &A) -> (r: Result<Tuple, Error>)
        requires
            steady(ops),
        ensures
            r == self.normal(*world_pt, ops),
    {
        reveal(Shape::normal);
        if !world_pt.is_point() {
            return Err(Error::InvariantViolation);
        }
        let inverse = match self.transform.transform_inverted(ops) {
            Ok(m) => m,
            Err(e) => {
                return Err(e);
            },
        };
        let obj_pt = match inverse.mul_tuple(world_pt, ops) {
            Ok(t) => t,
            Err(e) => {
                return Err(e);
            },
        };
        if !obj_pt.is_point() {
            return Err(Error::InvariantViolation);
        }
        let obj_normal = self.object.normal_at(&obj_pt, ops);
        let mut world_normal = match inverse.transposed().mul_tuple(&obj_normal, ops) {
            Ok(t) => t,
            Err(e) => {
                return Err(e);
            },
        };
        world_normal.set(3, Scalar::zero());
        world_normal.normalized(ops)
    }
}

/// Among the first `n` crossings of `xs`, `i` is in front of the ray, none
/// in front is nearer, and none behind it in the list is as near.
pub open spec fn is_hit_among(xs: Seq<Intersection>, n: int, i: int) -> bool {
    &&& 0 <= i < n <= xs.len()
    &&& xs[i].in_front()
    &&& forall|j: int|
        0 <= j < n && #[trigger] xs[j].in_front() ==> if j <= i {
            xs[i].distance.at_most(xs[j].distance)
        } else {
            xs[i].distance.less(xs[j].distance)
        }
}

/// `i` is the hit of `xs`: the nearest crossing in front of the ray, and of
/// several that are equally near the last in the list.
pub open spec fn is_hit(xs: Seq<Intersection>, i: int) -> bool {
    is_hit_among(xs, xs.len() as int, i)
}

/// The hit of `xs`, where it has one.
pub open spec fn hit_of(xs: Seq<Intersection>) -> Option<Intersection> {
    if exists|i: int| is_hit(xs, i) {
        Some(xs[choose|i: int| is_hit(xs, i)])
    } else {
        None
    }
}

/// A list has at most one hit.
pub proof fn lemma_hit_unique(xs: Seq<Intersection>, i: int, j: int)
    requires
        is_hit(xs, i),
        is_hit(xs, j),
    ensures
        i == j,
{
    assert(xs[i].in_front());
    assert(xs[j].in_front());
}

/// The crossing that `is_hit` singles out is the hit.
pub proof fn lemma_hit_is(xs: Seq<Intersection>, i: int)
    requires
        is_hit(xs, i),
    ensures
        hit_of(xs) == Some(xs[i]),
{
    lemma_hit_unique(xs, i, choose|k: int| is_hit(xs, k));
}

/// A list has a hit exactly if one of its crossings is in front of the ray.
pub proof fn lemma_hit_exists(xs: Seq<Intersection>)
    ensures
        hit_of(xs).is_some() <==> exists|j: int| 0 <= j < xs.len() && #[trigger] xs[j].in_front(),
        hit_of(xs).is_some() ==> hit_of(xs).unwrap().in_front(),
    decreases xs.len(),
{
    if exists|j: int| 0 <= j < xs.len() && #[trigger] xs[j].in_front() {
        let i = lemma_hit_among(xs, xs.len() as int);
        assert(is_hit(xs, i));
    }
    if exists|i: int| is_hit(xs, i) {
        let i = choose|i: int| is_hit(xs, i);
        assert(xs[i].in_front());
    }
}

/// Where one of the first `n` crossings is in front of the ray, the first
/// `n` crossings have a hit.
pub proof fn lemma_hit_among(xs: Seq<Intersection>, n: int) -> (i: int)
    requires
        0 <= n <= xs.len(),
        exists|j: int| 0 <= j < n && #[trigger] xs[j].in_front(),
    ensures
        is_hit_among(xs, n, i),
    decreases n,
{
    let last = n - 1;
    if exists|j: int| 0 <= j < last && #[trigger] xs[j].in_front() {
        let b = lemma_hit_among(xs, last);
        if xs[last].in_front() && !xs[b].distance.less(xs[last].distance) {
            assert(is_hit_among(xs, n, last));
            last
        } else {
            assert(is_hit_among(xs, n, b));
            b
        }
    } else {
        assert(xs[last].in_front());
        assert(is_hit_among(xs, n, last));
        last
    }
}

/// A list of crossings.
pub trait IntersectionList {
    /// The crossings, in the order of the list.
    spec fn entries(&self) -> Seq<Intersection>;

    /// The crossing with the smallest distance that is not negative: the hit.
    fn hit(&self) -> (r: Option<&Intersection>)
        ensures
            match r {
                Some(x) => hit_of(self.entries()) == Some(*x),
                None => hit_of(self.entries()).is_none(),
            },
    ;
}

impl IntersectionList for Vec<Intersection> {
    open spec fn entries(&self) -> Seq<Intersection> {
        self@
    }

    fn hit(&self) -> (r: Option<&Intersection>) {
        let mut best: Option<usize> = None;
        let mut i: usize = 0;
        while i < self.len()
            invariant
                i <= self.len(),
                match best {
                    Some(b) => is_hit_among(self@, i as int, b as int),
                    None => forall|j: int| 0 <= j < i ==> !(#[trigger] self@[j].in_front()),
                },
            decreases self.len() - i,
        {
            let distance = self[i].distance;
            if Scalar::zero().le(distance) {
                match best {
                    Some(b) => {
                        if !self[b].distance.lt(distance) {
                            best = Some(i);
                        }
                    },
                    None => {
                        best = Some(i);
                    },
                }
            }
            i += 1;
        }
        match best {
            Some(b) => {
                proof {
                    assert(is_hit(self@, b as int));
                    lemma_hit_unique(self@, b as int, choose|k: int| is_hit(self@, k));
                }
                Some(&self[b])
            },
            None => {
                proof {
                    if exists|k: int| is_hit(self@, k) {
                        let k = choose|k: int| is_hit(self@, k);
                        assert(self@[k].in_front());
                    }
                }
                None
            },
        }
    }
}

/// What shading needs to know of a crossing.
#[derive(Clone, Copy, Debug)]
pub struct Computations {
    /// The distance of the crossing.
    pub distance: Scalar,
    /// The handle of the shape that is crossed.
    pub object: usize,
    /// The point of the crossing.
    pub point: Tuple,
    /// The point of the crossing, moved a little along the normal.
    pub over_point: Tuple,
    /// The vector from the point toward the eye.
    pub eye_vec: Tuple,
    /// The normal of the surface at the point, on the side of the eye.
    pub normal_vec: Tuple,
    /// The eye is inside the shape.
    pub inside: bool,
}

/// The eye is inside the shape if the surface normal points away from it:
/// if the cosine between normal and eye vector is below 0.
pub open spec fn eye_inside(normal_dot_eye: Scalar) -> bool {
    normal_dot_eye.less(Scalar::spec_zero())
}

/// The normal on the side of the eye: the surface normal, negated where the
/// eye is inside.
pub open spec fn facing_normal(normal: Tuple, normal_dot_eye: Scalar) -> Tuple {
    if eye_inside(normal_dot_eye) {
        normal.negated()
    } else {
        normal
    }
}

/// Turns the surface normal toward the eye, and says whether the eye is
/// inside the shape.
pub fn facing(normal: &Tuple, normal_dot_eye: Scalar) -> (r: (Tuple, bool))
    ensures
        r.0 == facing_normal(*normal, normal_dot_eye),
        r.1 == eye_inside(normal_dot_eye),
{
    if normal_dot_eye.lt(Scalar::zero()) {
        (normal.neg(), true)
    } else {
        (*normal, false)
    }
}

impl Intersection {
    /// What shading needs to know of this crossing of `ray` with `shape`:
    /// the point of the ray at the distance of the crossing, the normal of
    /// the shape there, turned toward the eye, the eye vector, which is the
    /// negated direction of the ray, and the point moved along the normal
    /// by 0.00001. There is nothing to know where the shape has no normal
    /// at the point.
    #[verifier::opaque]
    pub open spec fn computations<A: Arithmetic>(self, shape: &Shape, ray: RayView, ops: &A) -> Result<
        Computations,
        Error,
    > {
        let point = ray.position(self.distance, ops);
        match shape.normal(point, ops) {
            Ok(normal) => {
                let eye_vec = ray.direction.negated();
                let cosine = normal.dot_product(eye_vec, ops);
                let normal_vec = facing_normal(normal, cosine);
                Ok(
                    Computations {
                        distance: self.distance,
                        object: self.shape,
                        point,
                        over_point: point.added(
                            normal_vec.scaled(Scalar { bits: EPSILON_BITS }, ops),
                            ops,
                        ),
                        eye_vec,
                        normal_vec,
                        inside: eye_inside(cosine),
                    },
                )
            },
            Err(e) => Err(e),
        }
    }

    /// Computes what shading needs to know of this crossing of `ray` with
    /// `shape`, the shape whose handle the crossing carries.
    pub fn prepare_computations<A: Arithmetic>(&self, shape: &Shape, ray: &Ray, ops: &A) -> (r:
        Result<Computations, Error>)
        requires
            steady(ops),
        ensures
            r == self.computations(shape, ray@, ops),
    {
        reveal(Intersection::computations);
        let point = ray.position(self.distance, ops);
        let normal = match shape.normal_at(&point, ops) {
            Ok(n) => n,
            Err(e) => {
                return Err(e);
            },
        };
        let eye_vec = ray.direction().neg();
        let (normal_vec, inside) = facing(&normal, normal.dot(&eye_vec, ops));
        let over_point = point.plus(&normal_vec.times(Scalar::from_bits(EPSILON_BITS), ops), ops);
        Ok(
            Computations {
                distance: self.distance,
                object: self.shape,
                point,
                over_point,
                eye_vec,
                normal_vec,
                inside,
            },
        )
    }
}

} // verus!
