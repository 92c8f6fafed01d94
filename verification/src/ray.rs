//! Rays: an origin and a direction.

use vstd::prelude::*;
use crate::arithmetic::{steady, Arithmetic};
use crate::error::Error;
use crate::matrix::{Matrix, MatrixView};
use crate::scalar::Scalar;
use crate::tuple::Tuple;

verus! {

/// A ray. Its origin is a point and its direction a vector.
#[derive(Clone, Copy, Debug)]
pub struct Ray {
    origin: Tuple,
    direction: Tuple,
}

/// What a ray holds.
pub struct RayView {
    pub origin: Tuple,
    pub direction: Tuple,
}

impl RayView {
    /// The origin is a point and the direction a vector.
    pub open spec fn wf(self) -> bool {
        self.origin.point() && self.direction.vector()
    }

    /// The ray from `origin` along `direction`, if the one is a point and the
    /// other a vector.
    pub open spec fn checked(origin: Tuple, direction: Tuple) -> Result<RayView, Error> {
        if origin.point() && direction.vector() {
            Ok(RayView { origin, direction })
        } else {
            Err(Error::InvariantViolation)
        }
    }

    /// The point of the ray at distance `t` from its origin: the origin
    /// plus the direction times `t`.
    pub open spec fn position<A: Arithmetic>(self, t: Scalar, ops: &A) -> Tuple {
        self.origin.added(self.direction.scaled(t, ops), ops)
    }

    /// The ray with the matrix `m` applied to its origin and to its
    /// direction. There is none unless the matrix can be applied to a tuple
    /// and gives a point for the origin and a vector for the direction.
    pub open spec fn transformed<A: Arithmetic>(self, m: MatrixView, ops: &A) -> Result<
        RayView,
        Error,
    > {
        if m.ncols == 4 && m.nrows <= 4 {
            RayView::checked(m.applied(self.origin, ops), m.applied(self.direction, ops))
        } else {
            Err(Error::InvalidDimension)
        }
    }
}

/// The result `r` is the ray or the failure that `expected` says.
pub open spec fn ray_is(r: Result<Ray, Error>, expected: Result<RayView, Error>) -> bool {
    match r {
        Ok(ray) => expected == Ok::<RayView, Error>(ray@),
        Err(e) => expected == Err::<RayView, Error>(e),
    }
}

impl View for Ray {
    type V = RayView;

    closed spec fn view(&self) -> RayView {
        RayView { origin: self.origin, direction: self.direction }
    }
}

impl Ray {
    /// The fields are private, so every ray was made by `new` or by
    /// `from_triplets`, and both make well-formed rays.
    #[verifier::type_invariant]
    pub closed spec fn inv(self) -> bool {
        self.origin.point() && self.direction.vector()
    }

    /// Creates the ray from `origin` along `direction`. The origin of a ray
    /// is a point and its direction a vector; anything else is refused.
    pub fn new(origin: Tuple, direction: Tuple) -> (r: Result<Ray, Error>)
        ensures
            ray_is(r, RayView::checked(origin, direction)),
    {
        if origin.is_point() && direction.is_vector() {
            Ok(Ray { origin, direction })
        } else {
            Err(Error::InvariantViolation)
        }
    }

    /// Creates a ray from the coordinates of its origin and of its
    /// direction.
    pub fn from_triplets(origin: (Scalar, Scalar, Scalar), direction: (Scalar, Scalar, Scalar)) -> (ray:
        Ray)
        ensures
            ray@.origin == (Tuple {
                x: origin.0,
                y: origin.1,
                z: origin.2,
                w: Scalar::spec_one(),
            }),
            ray@.direction == (Tuple {
                x: direction.0,
                y: direction.1,
                z: direction.2,
                w: Scalar::spec_zero(),
            }),
            ray@.wf(),
    {
        Ray {
            origin: Tuple::new_point(origin.0, origin.1, origin.2),
            direction: Tuple::new_vector(direction.0, direction.1, direction.2),
        }
    }

    pub fn origin(&self) -> (r: &Tuple)
        ensures
            *r == self@.origin,
            r.point(),
    {
        proof {
            use_type_invariant(self);
        }
        &self.origin
    }

    pub fn direction(&self) -> (r: &Tuple)
        ensures
            *r == self@.direction,
            r.vector(),
    {
        proof {
            use_type_invariant(self);
        }
        &self.direction
    }
}

impl Ray {
    /// The point of the ray at distance `t` from its origin.
    pub fn position<A: Arithmetic>(&self, t: Scalar, ops: &A) -> (p: Tuple)
        requires
            steady(ops),
        ensures
            p == self@.position(t, ops),
    {
        self.origin.plus(&self.direction.times(t, ops), ops)
    }

    /// The ray with the transformation `m` applied to it.
    pub fn transformed<A: Arithmetic>(&self, m: &Matrix, ops: &A) -> (r: Result<Ray, Error>)
        requires
            steady(ops),
        ensures
            ray_is(r, self@.transformed(m@, ops)),
    {
        let origin = match m.mul_tuple(&self.origin, ops) {
            Ok(t) => t,
            Err(e) => {
                return Err(e);
            },
        };
        let direction = match m.mul_tuple(&self.direction, ops) {
            Ok(t) => t,
            Err(e) => {
                return Err(e);
            },
        };
        Ray::new(origin, direction)
    }
}

} // verus!
