//! Homogeneous coordinates: points and vectors.
//!
//! A tuple whose `w` is the number 1 is a point; one whose `w` is the number
//! 0 is a vector. Arithmetic on tuples may leave any other `w` behind, and
//! such a tuple is neither.

use vstd::prelude::*;
use crate::arithmetic::{
    close, difference, nearly_equal, product, quotient, square_root, steady, sum, Arithmetic,
};
use crate::error::Error;
use crate::scalar::{lemma_constants, Scalar};

verus! {

/// Four scalars `(x, y, z, w)`.
#[derive(Clone, Copy, Debug)]
pub struct Tuple {
    pub x: Scalar,
    pub y: Scalar,
    pub z: Scalar,
    pub w: Scalar,
}

impl Tuple {
    /// `w` is the number 1.
    pub open spec fn point(self) -> bool {
        self.w.same(Scalar::spec_one())
    }

    /// `w` is the number 0, of either sign.
    pub open spec fn vector(self) -> bool {
        self.w.same(Scalar::spec_zero())
    }

    /// The component of index `i`: 0 is `x`, 1 is `y`, 2 is `z`, and
    /// anything else `w`.
    pub open spec fn component(self, i: int) -> Scalar {
        if i == 0 {
            self.x
        } else if i == 1 {
            self.y
        } else if i == 2 {
            self.z
        } else {
            self.w
        }
    }

    /// The tuple with component `i` replaced by `v`.
    pub open spec fn with_component(self, i: int, v: Scalar) -> Tuple {
        if i == 0 {
            Tuple { x: v, ..self }
        } else if i == 1 {
            Tuple { y: v, ..self }
        } else if i == 2 {
            Tuple { z: v, ..self }
        } else {
            Tuple { w: v, ..self }
        }
    }

    /// Every component with its sign flipped.
    pub open spec fn negated(self) -> Tuple {
        Tuple {
            x: self.x.negated(),
            y: self.y.negated(),
            z: self.z.negated(),
            w: self.w.negated(),
        }
    }

    /// The tuple `(x, y, z, w)`.
    pub fn new(x: Scalar, y: Scalar, z: Scalar, w: Scalar) -> (t: Tuple)
        ensures
            t == (Tuple { x, y, z, w }),
    {
        Tuple { x, y, z, w }
    }

    /// The point `(x, y, z)`.
    pub fn new_point(x: Scalar, y: Scalar, z: Scalar) -> (t: Tuple)
        ensures
            t == (Tuple { x, y, z, w: Scalar::spec_one() }),
            t.point(),
            !t.vector(),
    {
        proof {
            lemma_constants();
        }
        Tuple { x, y, z, w: Scalar::one() }
    }

    /// The vector `(x, y, z)`.
    pub fn new_vector(x: Scalar, y: Scalar, z: Scalar) -> (t: Tuple)
        ensures
            t == (Tuple { x, y, z, w: Scalar::spec_zero() }),
            t.vector(),
            !t.point(),
    {
        proof {
            lemma_constants();
        }
        Tuple { x, y, z, w: Scalar::zero() }
    }

    /// The tuple of four zeros.
    pub fn new_zero() -> (t: Tuple)
        ensures
            t == (Tuple {
                x: Scalar::spec_zero(),
                y: Scalar::spec_zero(),
                z: Scalar::spec_zero(),
                w: Scalar::spec_zero(),
            }),
    {
        let o = Scalar::zero();
        Tuple { x: o, y: o, z: o, w: o }
    }

    /// The point at the origin of the coordinate system.
    pub open spec fn spec_origin() -> Tuple {
        Tuple {
            x: Scalar::spec_zero(),
            y: Scalar::spec_zero(),
            z: Scalar::spec_zero(),
            w: Scalar::spec_one(),
        }
    }

    /// The point at the origin of the coordinate system.
    #[verifier::when_used_as_spec(spec_origin)]
    pub fn origin() -> (t: Tuple)
        ensures
            t == Tuple::spec_origin(),
            t.point(),
    {
        let o = Scalar::zero();
        Tuple::new_point(o, o, o)
    }

    /// Whether the tuple is a point.
    pub fn is_point(&self) -> (r: bool)
        ensures
            r == self.point(),
    {
        self.w.equals(Scalar::one())
    }

    /// Whether the tuple is a vector.
    pub fn is_vector(&self) -> (r: bool)
        ensures
            r == self.vector(),
    {
        self.w.equals(Scalar::zero())
    }

    pub fn x(&self) -> (r: Scalar)
        ensures
            r == self.x,
    {
        self.x
    }

    pub fn y(&self) -> (r: Scalar)
        ensures
            r == self.y,
    {
        self.y
    }

    pub fn z(&self) -> (r: Scalar)
        ensures
            r == self.z,
    {
        self.z
    }

    pub fn w(&self) -> (r: Scalar)
        ensures
            r == self.w,
    {
        self.w
    }

    /// The component of index `i`.
    pub fn get(&self, i: usize) -> (r: Scalar)
        requires
            i < 4,
        ensures
            r == self.component(i as int),
    {
        if i == 0 {
            self.x
        } else if i == 1 {
            self.y
        } else if i == 2 {
            self.z
        } else {
            self.w
        }
    }

    /// Replaces the component of index `i` by `v`.
    pub fn set(&mut self, i: usize, v: Scalar)
        requires
            i < 4,
        ensures
            *final(self) == old(self).with_component(i as int, v),
    {
        if i == 0 {
            self.x = v;
        } else if i == 1 {
            self.y = v;
        } else if i == 2 {
            self.z = v;
        } else {
            self.w = v;
        }
    }

    /// The tuple that points the other way: every component negated.
    pub fn neg(&self) -> (t: Tuple)
        ensures
            t == self.negated(),
    {
        Tuple { x: self.x.neg(), y: self.y.neg(), z: self.z.neg(), w: self.w.neg() }
    }
}

/// The pattern of the number 2.
pub const TWO_BITS: u64 = 0x4000_0000_0000_0000;

impl Tuple {
    /// The dot product: the products of the components, summed up from 0
    /// in the order x, y, z, w.
    pub open spec fn dot_product<A: Arithmetic>(self, other: Tuple, ops: &A) -> Scalar {
        let x = sum(ops, Scalar::spec_zero(), product(ops, self.x, other.x));
        let xy = sum(ops, x, product(ops, self.y, other.y));
        let xyz = sum(ops, xy, product(ops, self.z, other.z));
        sum(ops, xyz, product(ops, self.w, other.w))
    }

    /// The cross product of two vectors.
    pub open spec fn cross_product<A: Arithmetic>(self, other: Tuple, ops: &A) -> Tuple {
        Tuple {
            x: difference(ops, product(ops, self.y, other.z), product(ops, self.z, other.y)),
            y: difference(ops, product(ops, self.z, other.x), product(ops, self.x, other.z)),
            z: difference(ops, product(ops, self.x, other.y), product(ops, self.y, other.x)),
            w: Scalar::spec_zero(),
        }
    }

    /// The magnitude: the square root of the dot product with itself.
    pub open spec fn length<A: Arithmetic>(self, ops: &A) -> Scalar {
        square_root(ops, self.dot_product(self, ops))
    }

    /// Every component divided by `by`.
    pub open spec fn divided<A: Arithmetic>(self, by: Scalar, ops: &A) -> Tuple {
        Tuple {
            x: quotient(ops, self.x, by),
            y: quotient(ops, self.y, by),
            z: quotient(ops, self.z, by),
            w: quotient(ops, self.w, by),
        }
    }

    /// The tuple of magnitude 1 with the same direction; none where the
    /// magnitude is 0.
    pub open spec fn unit<A: Arithmetic>(self, ops: &A) -> Result<Tuple, Error> {
        if self.length(ops).same(Scalar::spec_zero()) {
            Err(Error::DegenerateVector)
        } else {
            Ok(self.divided(self.length(ops), ops))
        }
    }

    /// The sum, component by component.
    pub open spec fn added<A: Arithmetic>(self, other: Tuple, ops: &A) -> Tuple {
        Tuple {
            x: sum(ops, self.x, other.x),
            y: sum(ops, self.y, other.y),
            z: sum(ops, self.z, other.z),
            w: sum(ops, self.w, other.w),
        }
    }

    /// The difference, component by component.
    pub open spec fn subtracted<A: Arithmetic>(self, other: Tuple, ops: &A) -> Tuple {
        Tuple {
            x: difference(ops, self.x, other.x),
            y: difference(ops, self.y, other.y),
            z: difference(ops, self.z, other.z),
            w: difference(ops, self.w, other.w),
        }
    }

    /// Every component multiplied by `k`.
    pub open spec fn scaled<A: Arithmetic>(self, k: Scalar, ops: &A) -> Tuple {
        Tuple {
            x: product(ops, self.x, k),
            y: product(ops, self.y, k),
            z: product(ops, self.z, k),
            w: product(ops, self.w, k),
        }
    }

    /// The tuple mirrored at the plane with the given normal: the tuple
    /// less the normal times twice the dot product of the two.
    pub open spec fn mirrored<A: Arithmetic>(self, normal: Tuple, ops: &A) -> Tuple {
        self.subtracted(
            normal.scaled(product(ops, Scalar { bits: TWO_BITS }, self.dot_product(normal, ops)), ops),
            ops,
        )
    }

    /// Every component is close to that of the other tuple.
    pub open spec fn close_to<A: Arithmetic>(self, other: Tuple, ops: &A) -> bool {
        &&& close(ops, self.x, other.x)
        &&& close(ops, self.y, other.y)
        &&& close(ops, self.z, other.z)
        &&& close(ops, self.w, other.w)
    }

    /// The dot product of two tuples.
    pub fn dot<A: Arithmetic>(&self, other: &Tuple, ops: &A) -> (r: Scalar)
        requires
            steady(ops),
        ensures
            r == self.dot_product(*other, ops),
    {
        let mut res = Scalar::zero();
        res = ops.plus(res, ops.times(self.x, other.x));
        res = ops.plus(res, ops.times(self.y, other.y));
        res = ops.plus(res, ops.times(self.z, other.z));
        ops.plus(res, ops.times(self.w, other.w))
    }

    /// The cross product of two vectors, which is a vector.
    pub fn cross<A: Arithmetic>(&self, other: &Tuple, ops: &A) -> (r: Tuple)
        requires
            steady(ops),
            self.vector(),
            other.vector(),
        ensures
            r == self.cross_product(*other, ops),
            r.vector(),
    {
        Tuple::new_vector(
            ops.minus(ops.times(self.y, other.z), ops.times(self.z, other.y)),
            ops.minus(ops.times(self.z, other.x), ops.times(self.x, other.z)),
            ops.minus(ops.times(self.x, other.y), ops.times(self.y, other.x)),
        )
    }

    /// The magnitude of the tuple.
    pub fn magnitude<A: Arithmetic>(&self, ops: &A) -> (r: Scalar)
        requires
            steady(ops),
        ensures
            r == self.length(ops),
    {
        ops.root(self.dot(self, ops))
    }

    /// The tuple brought to magnitude 1. A tuple of magnitude 0 has no
    /// direction and is refused.
    pub fn normalized<A: Arithmetic>(&self, ops: &A) -> (r: Result<Tuple, Error>)
        requires
            steady(ops),
        ensures
            r == self.unit(ops),
    {
        let m = self.magnitude(ops);
        if m.equals(Scalar::zero()) {
            Err(Error::DegenerateVector)
        } else {
            Ok(
                Tuple {
                    x: ops.over(self.x, m),
                    y: ops.over(self.y, m),
                    z: ops.over(self.z, m),
                    w: ops.over(self.w, m),
                },
            )
        }
    }

    /// The sum of two tuples.
    pub fn plus<A: Arithmetic>(&self, other: &Tuple, ops: &A) -> (r: Tuple)
        requires
            steady(ops),
        ensures
            r == self.added(*other, ops),
    {
        Tuple {
            x: ops.plus(self.x, other.x),
            y: ops.plus(self.y, other.y),
            z: ops.plus(self.z, other.z),
            w: ops.plus(self.w, other.w),
        }
    }

    /// The difference of two tuples.
    pub fn minus<A: Arithmetic>(&self, other: &Tuple, ops: &A) -> (r: Tuple)
        requires
            steady(ops),
        ensures
            r == self.subtracted(*other, ops),
    {
        Tuple {
            x: ops.minus(self.x, other.x),
            y: ops.minus(self.y, other.y),
            z: ops.minus(self.z, other.z),
            w: ops.minus(self.w, other.w),
        }
    }

    /// The tuple multiplied by `k`.
    pub fn times<A: Arithmetic>(&self, k: Scalar, ops: &A) -> (r: Tuple)
        requires
            steady(ops),
        ensures
            r == self.scaled(k, ops),
    {
        Tuple {
            x: ops.times(self.x, k),
            y: ops.times(self.y, k),
            z: ops.times(self.z, k),
            w: ops.times(self.w, k),
        }
    }

    /// The tuple mirrored at the plane with the given normal.
    pub fn reflected<A: Arithmetic>(&self, normal: &Tuple, ops: &A) -> (r: Tuple)
        requires
            steady(ops),
        ensures
            r == self.mirrored(*normal, ops),
    {
        let twice = ops.times(Scalar::from_bits(TWO_BITS), self.dot(normal, ops));
        self.minus(&normal.times(twice, ops), ops)
    }

    /// Whether two tuples are equal up to rounding.
    pub fn nearly<A: Arithmetic>(&self, other: &Tuple, ops: &A) -> (r: bool)
        requires
            steady(ops),
        ensures
            r == self.close_to(*other, ops),
    {
        nearly_equal(ops, self.x, other.x) && nearly_equal(ops, self.y, other.y) && nearly_equal(
            ops,
            self.z,
            other.z,
        ) && nearly_equal(ops, self.w, other.w)
    }
}

/// No tuple is both a point and a vector, and a tuple made as a point or as
/// a vector is the one and not the other, with `w` exactly 1 or exactly 0.
pub proof fn lemma_point_or_vector(t: Tuple, x: Scalar, y: Scalar, z: Scalar)
    ensures
        !(t.point() && t.vector()),
        (Tuple { x, y, z, w: Scalar::spec_one() }).point(),
        !(Tuple { x, y, z, w: Scalar::spec_one() }).vector(),
        (Tuple { x, y, z, w: Scalar::spec_zero() }).vector(),
        !(Tuple { x, y, z, w: Scalar::spec_zero() }).point(),
{
    lemma_constants();
}

/// The negation of a vector is a vector.
pub proof fn lemma_negated_vector(t: Tuple)
    requires
        t.vector(),
    ensures
        t.negated().vector(),
{
    crate::scalar::lemma_negated(t.w);
    lemma_constants();
}

} // verus!
