//! The camera: the size of the picture, the angle of view and the place of
//! the eye.

use vstd::prelude::*;
use crate::arithmetic::{
    count_of, difference, product, quotient, steady, sum, tangent_of, Arithmetic,
};
use crate::canvas::Canvas;
use crate::color::Color;
use crate::error::Error;
use crate::grid::lemma_index_in_grid;
use crate::matrix::{Matrix, MatrixView};
use crate::ray::{ray_is, Ray, RayView};
use crate::scalar::Scalar;
use crate::tuple::{Tuple, TWO_BITS};
use crate::world::World;

verus! {

/// What maps the scene onto a picture of `hsize` by `vsize` pixels.
#[derive(Debug)]
pub struct Camera {
    hsize: usize,
    vsize: usize,
    field_of_view: Scalar,
    half_width: Scalar,
    half_height: Scalar,
    pixel_size: Scalar,
    transform: Matrix,
}

/// The sizes of a camera.
pub struct CameraView {
    /// The width of the picture in pixels.
    pub hsize: nat,
    /// The height of the picture in pixels.
    pub vsize: nat,
    /// The angle of view, in radians.
    pub field_of_view: Scalar,
    /// Half the width of the picture in world units.
    pub half_width: Scalar,
    /// Half the height of the picture in world units.
    pub half_height: Scalar,
    /// The side of a pixel in world units.
    pub pixel_size: Scalar,
    /// The view transformation.
    pub transform: MatrixView,
}

impl View for Camera {
    type V = CameraView;

    closed spec fn view(&self) -> CameraView {
        CameraView {
            hsize: self.hsize as nat,
            vsize: self.vsize as nat,
            field_of_view: self.field_of_view,
            half_width: self.half_width,
            half_height: self.half_height,
            pixel_size: self.pixel_size,
            transform: self.transform@,
        }
    }
}

impl Clone for Camera {
    fn clone(&self) -> (camera: Camera)
        ensures
            camera@ == self@,
    {
        Camera {
            hsize: self.hsize,
            vsize: self.vsize,
            field_of_view: self.field_of_view,
            half_width: self.half_width,
            half_height: self.half_height,
            pixel_size: self.pixel_size,
            transform: self.transform.clone(),
        }
    }
}

/// The pattern of the number 0.5.
pub const HALF_BITS: u64 = 0x3FE0_0000_0000_0000;

/// Half the width and half the height of the picture, where `aspect` is
/// width by height in pixels and `half_view` the tangent of half the angle
/// of view: the longer side gets `half_view`, the shorter one `half_view`
/// brought down by the aspect.
pub open spec fn half_extents_of(
    aspect: Scalar,
    half_view: Scalar,
    half_view_by_aspect: Scalar,
    half_view_times_aspect: Scalar,
) -> (Scalar, Scalar) {
    if Scalar::spec_one().at_most(aspect) {
        (half_view, half_view_by_aspect)
    } else {
        (half_view_times_aspect, half_view)
    }
}

/// Chooses half the width and half the height of the picture, given the
/// quotient and the product of `half_view` and `aspect`.
pub fn half_extents(
    aspect: Scalar,
    half_view: Scalar,
    half_view_by_aspect: Scalar,
    half_view_times_aspect: Scalar,
) -> (r: (Scalar, Scalar))
    ensures
        r == half_extents_of(aspect, half_view, half_view_by_aspect, half_view_times_aspect),
{
    if Scalar::one().le(aspect) {
        (half_view, half_view_by_aspect)
    } else {
        (half_view_times_aspect, half_view)
    }
}

impl CameraView {
    /// The camera for a picture of `hsize` by `vsize` pixels with the given
    /// angle of view and view transformation. With `half_view` the tangent
    /// of half the angle and `aspect` the width by the height, the longer
    /// side of the picture reaches `half_view` from the middle and the
    /// shorter one that brought down by the aspect; a pixel is as wide as
    /// the whole width, which is twice the half, by the number of pixels.
    pub open spec fn of<A: Arithmetic>(
        hsize: usize,
        vsize: usize,
        field_of_view: Scalar,
        transform: MatrixView,
        ops: &A,
    ) -> CameraView {
        let two = Scalar { bits: TWO_BITS };
        let half_view = tangent_of(ops, quotient(ops, field_of_view, two));
        let aspect = quotient(ops, count_of(ops, hsize), count_of(ops, vsize));
        let halves = half_extents_of(
            aspect,
            half_view,
            quotient(ops, half_view, aspect),
            product(ops, half_view, aspect),
        );
        CameraView {
            hsize: hsize as nat,
            vsize: vsize as nat,
            field_of_view,
            half_width: halves.0,
            half_height: halves.1,
            pixel_size: quotient(ops, product(ops, halves.0, two), count_of(ops, hsize)),
            transform,
        }
    }

    /// The point on the picture plane, one unit in front of the eye,
    /// through which the ray of pixel `(x, y)` goes: the middle of the
    /// pixel, counted from the upper left corner of the picture.
    pub open spec fn target<A: Arithmetic>(self, x: usize, y: usize, ops: &A) -> Tuple {
        let half = Scalar { bits: HALF_BITS };
        let x_offset = product(ops, sum(ops, count_of(ops, x), half), self.pixel_size);
        let y_offset = product(ops, sum(ops, count_of(ops, y), half), self.pixel_size);
        Tuple {
            x: difference(ops, self.half_width, x_offset),
            y: difference(ops, self.half_height, y_offset),
            z: Scalar::spec_one().negated(),
            w: Scalar::spec_one(),
        }
    }

    /// The ray from the eye through pixel `(x, y)`: the target and the eye,
    /// which is the origin, are brought into the world by the inverse of
    /// the view transformation, and the ray goes from the one toward the
    /// other. There is none where the transformation has no inverse, where
    /// target and eye fall together, or where what comes out is no ray.
    #[verifier::opaque]
    pub open spec fn ray_for<A: Arithmetic>(self, x: usize, y: usize, ops: &A) -> Result<
        RayView,
        Error,
    > {
        match self.transform.transform_inverse(ops) {
            Ok(inverse) => {
                let pixel = inverse.applied(self.target(x, y, ops), ops);
                let origin = inverse.applied(Tuple::spec_origin(), ops);
                match pixel.subtracted(origin, ops).unit(ops) {
                    Ok(direction) => RayView::checked(origin, direction),
                    Err(e) => Err(e),
                }
            },
            Err(e) => Err(e),
        }
    }

    /// The color of pixel `(x, y)` of the picture of `world`.
    #[verifier::opaque]
    pub open spec fn color_for<A: Arithmetic>(self, world: &World, x: usize, y: usize, ops: &A) -> Result<
        Color,
        Error,
    > {
        match self.ray_for(x, y, ops) {
            Ok(ray) => world.seen(ray, ops),
            Err(e) => Err(e),
        }
    }

    /// The colors of the first `n` pixels of the picture of `world`,
    /// counted row by row from the top and from left to right in each row,
    /// or the failure of the first pixel that fails.
    pub open spec fn painted<A: Arithmetic>(self, world: &World, n: nat, ops: &A) -> Result<
        Seq<Color>,
        Error,
    >
        decreases n,
    {
        if n == 0 || self.hsize == 0 {
            Ok(Seq::empty())
        } else {
            match self.painted(world, (n - 1) as nat, ops) {
                Ok(before) => match self.color_for(
                    world,
                    ((n - 1) % (self.hsize as int)) as usize,
                    ((n - 1) / (self.hsize as int)) as usize,
                    ops,
                ) {
                    Ok(color) => Ok(before.push(color)),
                    Err(e) => Err(e),
                },
                Err(e) => Err(e),
            }
        }
    }

    /// The picture of `world`.
    pub open spec fn picture<A: Arithmetic>(self, world: &World, ops: &A) -> Result<
        crate::canvas::CanvasView,
        Error,
    > {
        match self.painted(world, self.hsize * self.vsize, ops) {
            Ok(pixels) => Ok(
                crate::canvas::CanvasView { width: self.hsize, height: self.vsize, pixels },
            ),
            Err(e) => Err(e),
        }
    }
}

impl Camera {
    /// Creates a camera for a picture of `hsize` by `vsize` pixels, with
    /// the angle of view `field_of_view` in radians and the view
    /// transformation `transform`.
    pub fn with_transform<A: Arithmetic>(
        hsize: usize,
        vsize: usize,
        field_of_view: Scalar,
        transform: Matrix,
        ops: &A,
    ) -> (camera: Camera)
        requires
            steady(ops),
        ensures
            camera@ == CameraView::of(hsize, vsize, field_of_view, transform@, ops),
    {
        let two = Scalar::from_bits(TWO_BITS);
        let half_view = ops.tangent(ops.over(field_of_view, two));
        let aspect = ops.over(ops.count(hsize), ops.count(vsize));
        let (half_width, half_height) = half_extents(
            aspect,
            half_view,
            ops.over(half_view, aspect),
            ops.times(half_view, aspect),
        );
        let pixel_size = ops.over(ops.times(half_width, two), ops.count(hsize));
        Camera { hsize, vsize, field_of_view, half_width, half_height, pixel_size, transform }
    }

    /// Creates a camera with the identity as its view transformation.
    pub fn new<A: Arithmetic>(hsize: usize, vsize: usize, field_of_view: Scalar, ops: &A) -> (camera:
        Camera)
        requires
            steady(ops),
        ensures
            camera@ == CameraView::of(
                hsize,
                vsize,
                field_of_view,
                MatrixView::identity(4),
                ops,
            ),
    {
        Camera::with_transform(hsize, vsize, field_of_view, Matrix::new_4x4_identity(), ops)
    }

    pub fn hsize(&self) -> (r: usize)
        ensures
            r == self@.hsize,
    {
        self.hsize
    }

    pub fn vsize(&self) -> (r: usize)
        ensures
            r == self@.vsize,
    {
        self.vsize
    }

    pub fn field_of_view(&self) -> (r: Scalar)
        ensures
            r == self@.field_of_view,
    {
        self.field_of_view
    }

    pub fn half_width(&self) -> (r: Scalar)
        ensures
            r == self@.half_width,
    {
        self.half_width
    }

    pub fn half_height(&self) -> (r: Scalar)
        ensures
            r == self@.half_height,
    {
        self.half_height
    }

    pub fn pixel_size(&self) -> (r: Scalar)
        ensures
            r == self@.pixel_size,
    {
        self.pixel_size
    }

    pub fn transform(&self) -> (r: &Matrix)
        ensures
            r@ == self@.transform,
    {
        &self.transform
    }

    /// Replaces the view transformation.
    pub fn set_transform(&mut self, transform: Matrix)
        ensures
            final(self)@ == (CameraView { transform: transform@, ..old(self)@ }),
    {
        self.transform = transform;
    }

    /// The ray from the eye through the middle of pixel `(x, y)`.
    pub fn ray_for_pixel<A: Arithmetic>(&self, x: usize, y: usize, ops: &A) -> (r: Result<
        Ray,
        Error,
    >)
        requires
            steady(ops),
        ensures
            ray_is(r, self@.ray_for(x, y, ops)),
    {
        reveal(CameraView::ray_for);
        let half = Scalar::from_bits(HALF_BITS);
        let x_offset = ops.times(ops.plus(ops.count(x), half), self.pixel_size);
        let y_offset = ops.times(ops.plus(ops.count(y), half), self.pixel_size);
        let x_world = ops.minus(self.half_width, x_offset);
        let y_world = ops.minus(self.half_height, y_offset);
        let inverse = match self.transform.transform_inverted(ops) {
            Ok(m) => m,
            Err(e) => {
                return Err(e);
            },
        };
        let target = Tuple::new_point(x_world, y_world, Scalar::one().neg());
        let pixel = match inverse.mul_tuple(&target, ops) {
            Ok(t) => t,
            Err(e) => {
                return Err(e);
            },
        };
        let origin = match inverse.mul_tuple(&Tuple::origin(), ops) {
            Ok(t) => t,
            Err(e) => {
                return Err(e);
            },
        };
        let direction = match pixel.minus(&origin, ops).normalized(ops) {
            Ok(t) => t,
            Err(e) => {
                return Err(e);
            },
        };
        Ray::new(origin, direction)
    }

    /// The color of pixel `(x, y)` of the picture of `world`.
    pub fn color_for_pixel<A: Arithmetic>(&self, world: &World, x: usize, y: usize, ops: &A) -> (r:
        Result<Color, Error>)
        requires
            steady(ops),
        ensures
            r == self@.color_for(world, x, y, ops),
    {
        reveal(CameraView::color_for);
        let ray = match self.ray_for_pixel(x, y, ops) {
            Ok(r) => r,
            Err(e) => {
                return Err(e);
            },
        };
        world.color_at(&ray, ops)
    }

    /// Renders the picture of `world`: the color of each pixel, row by row
    /// from the top and from left to right in each row. The first pixel
    /// that fails ends the rendering.
    pub fn render<A: Arithmetic>(&self, world: &World, ops: &A) -> (r: Result<Canvas, Error>)
        requires
            steady(ops),
            self@.hsize * self@.vsize <= usize::MAX,
        ensures
            match r {
                Ok(canvas) => canvas@.wf() && self@.picture(world, ops) == Ok::<
                    crate::canvas::CanvasView,
                    Error,
                >(canvas@),
                Err(e) => self@.picture(world, ops) == Err::<crate::canvas::CanvasView, Error>(e),
            },
    {
        let mut pixels: Vec<Color> = Vec::new();
        let mut y: usize = 0;
        while y < self.vsize
            invariant
                steady(ops),
                self@.hsize * self@.vsize <= usize::MAX,
                y <= self.vsize,
                pixels@.len() == y * self.hsize,
                self@.painted(world, pixels@.len(), ops) == Ok::<Seq<Color>, Error>(pixels@),
            decreases self.vsize - y,
        {
            let mut x: usize = 0;
            while x < self.hsize
                invariant
                    steady(ops),
                    self@.hsize * self@.vsize <= usize::MAX,
                    y < self.vsize,
                    x <= self.hsize,
                    pixels@.len() == y * self.hsize + x,
                    self@.painted(world, pixels@.len(), ops) == Ok::<Seq<Color>, Error>(pixels@),
                decreases self.hsize - x,
            {
                proof {
                    lemma_index_in_grid(
                        self.hsize as nat,
                        self.vsize as nat,
                        x as nat,
                        y as nat,
                    );
                }
                match self.color_for_pixel(world, x, y, ops) {
                    Ok(color) => {
                        pixels.push(color);
                    },
                    Err(e) => {
                        proof {
                            self@.lemma_painted_fails(
                                world,
                                (y * self.hsize + x) as nat,
                                self@.hsize * self@.vsize,
                                e,
                                ops,
                            );
                        }
                        return Err(e);
                    },
                }
                x += 1;
            }
            proof {
                assert(y * self.hsize + self.hsize == (y + 1) * self.hsize) by (nonlinear_arith);
            }
            y += 1;
        }
        proof {
            assert(self.vsize * self.hsize == self.hsize * self.vsize) by (nonlinear_arith);
        }
        Ok(Canvas::from_pixels(self.hsize, self.vsize, pixels))
    }
}

impl CameraView {
    /// Where painting fails at pixel `k`, it fails in the same way for
    /// every number of pixels beyond `k`.
    pub proof fn lemma_painted_fails<A: Arithmetic>(
        self,
        world: &World,
        k: nat,
        n: nat,
        e: Error,
        ops: &A,
    )
        requires
            k < n,
            self.hsize > 0,
            self.painted(world, k, ops).is_ok(),
            self.color_for(
                world,
                (k % self.hsize) as usize,
                (k / self.hsize) as usize,
                ops,
            ) == Err::<Color, Error>(e),
        ensures
            self.painted(world, n, ops) == Err::<Seq<Color>, Error>(e),
        decreases n,
    {
        if n > k + 1 {
            self.lemma_painted_fails(world, k, (n - 1) as nat, e, ops);
        }
    }
}

} // verus!
