//! The matrices of the affine transformations.
//!
//! Translation, scaling and shearing place the scalars they are given into
//! a 4x4 matrix. The rotations place the cosine and the sine of their angle,
//! and the view transformation is built from the eye, the point it looks
//! at and the direction that is up.

use vstd::prelude::*;
use crate::arithmetic::{cosine_of, sine_of, steady, Arithmetic};
use crate::error::Error;
use crate::matrix::{Matrix, MatrixView};
use crate::scalar::Scalar;
use crate::tuple::Tuple;

verus! {

/// The tuple `(x, y, z, w)`.
pub open spec fn row(x: Scalar, y: Scalar, z: Scalar, w: Scalar) -> Tuple {
    Tuple { x, y, z, w }
}

/// The matrix with four columns whose rows are the given tuples.
pub open spec fn of_rows(rows: Seq<Tuple>) -> MatrixView {
    MatrixView::from_fn(rows.len(), 4, |r: int, c: int| rows[r].component(c))
}

/// Translation by `(dx, dy, dz)`.
pub open spec fn translation_of(dx: Scalar, dy: Scalar, dz: Scalar) -> MatrixView {
    let o = Scalar::spec_zero();
    let i = Scalar::spec_one();
    of_rows(seq![row(i, o, o, dx), row(o, i, o, dy), row(o, o, i, dz), row(o, o, o, i)])
}

/// Scaling by `x`, `y` and `z` along the axes.
pub open spec fn scaling_of(x: Scalar, y: Scalar, z: Scalar) -> MatrixView {
    let o = Scalar::spec_zero();
    let i = Scalar::spec_one();
    of_rows(seq![row(x, o, o, o), row(o, y, o, o), row(o, o, z, o), row(o, o, o, i)])
}

/// Rotation around the x axis by the angle with the given cosine and sine.
pub open spec fn rotation_x_of(cos: Scalar, sin: Scalar) -> MatrixView {
    let o = Scalar::spec_zero();
    let i = Scalar::spec_one();
    of_rows(
        seq![row(i, o, o, o), row(o, cos, sin.negated(), o), row(o, sin, cos, o), row(o, o, o, i)],
    )
}

/// Rotation around the y axis by the angle with the given cosine and sine.
pub open spec fn rotation_y_of(cos: Scalar, sin: Scalar) -> MatrixView {
    let o = Scalar::spec_zero();
    let i = Scalar::spec_one();
    of_rows(
        seq![row(cos, o, sin, o), row(o, i, o, o), row(sin.negated(), o, cos, o), row(o, o, o, i)],
    )
}

/// Rotation around the z axis by the angle with the given cosine and sine.
pub open spec fn rotation_z_of(cos: Scalar, sin: Scalar) -> MatrixView {
    let o = Scalar::spec_zero();
    let i = Scalar::spec_one();
    of_rows(
        seq![row(cos, sin.negated(), o, o), row(sin, cos, o, o), row(o, o, i, o), row(o, o, o, i)],
    )
}

/// Shearing: `xy` moves x in proportion to y, and so on.
pub open spec fn shearing_of(
    xy: Scalar,
    xz: Scalar,
    yx: Scalar,
    yz: Scalar,
    zx: Scalar,
    zy: Scalar,
) -> MatrixView {
    let o = Scalar::spec_zero();
    let i = Scalar::spec_one();
    of_rows(seq![row(i, xy, xz, o), row(yx, i, yz, o), row(zx, zy, i, o), row(o, o, o, i)])
}

/// The orientation of a view: the rows are `left`, `true_up` and the
/// negated `forward`.
pub open spec fn orientation_of(left: Tuple, true_up: Tuple, forward: Tuple) -> MatrixView {
    let o = Scalar::spec_zero();
    let i = Scalar::spec_one();
    of_rows(
        seq![
            row(left.x, left.y, left.z, o),
            row(true_up.x, true_up.y, true_up.z, o),
            row(forward.x.negated(), forward.y.negated(), forward.z.negated(), o),
            row(o, o, o, i),
        ],
    )
}

/// The 4x4 matrix with the given rows.
fn from_rows(a: [Scalar; 4], b: [Scalar; 4], c: [Scalar; 4], d: [Scalar; 4]) -> (m: Matrix)
    ensures
        m@.wf(),
        m@ == of_rows(
            seq![
                row(a[0], a[1], a[2], a[3]),
                row(b[0], b[1], b[2], b[3]),
                row(c[0], c[1], c[2], c[3]),
                row(d[0], d[1], d[2], d[3]),
            ],
        ),
{
    let values = [a, b, c, d];
    let m = Matrix::new_4x4(&values);
    assert(m@.cells =~= of_rows(
        seq![
            row(a[0], a[1], a[2], a[3]),
            row(b[0], b[1], b[2], b[3]),
            row(c[0], c[1], c[2], c[3]),
            row(d[0], d[1], d[2], d[3]),
        ],
    ).cells);
    m
}

/// The matrix of the translation by `(dx, dy, dz)`.
pub fn translation(dx: Scalar, dy: Scalar, dz: Scalar) -> (m: Matrix)
    ensures
        m@.wf(),
        m@ == translation_of(dx, dy, dz),
{
    let o = Scalar::zero();
    let i = Scalar::one();
    from_rows([i, o, o, dx], [o, i, o, dy], [o, o, i, dz], [o, o, o, i])
}

/// The matrix of the scaling by `x`, `y` and `z`.
pub fn scaling(x: Scalar, y: Scalar, z: Scalar) -> (m: Matrix)
    ensures
        m@.wf(),
        m@ == scaling_of(x, y, z),
{
    let o = Scalar::zero();
    let i = Scalar::one();
    from_rows([x, o, o, o], [o, y, o, o], [o, o, z, o], [o, o, o, i])
}

/// The matrix of the rotation around the x axis by `angle`, in radians.
pub fn rotation_x<A: Arithmetic>(angle: Scalar, ops: &A) -> (m: Matrix)
    requires
        steady(ops),
    ensures
        m@.wf(),
        m@ == rotation_x_of(cosine_of(ops, angle), sine_of(ops, angle)),
{
    let o = Scalar::zero();
    let i = Scalar::one();
    let cos = ops.cosine(angle);
    let sin = ops.sine(angle);
    from_rows([i, o, o, o], [o, cos, sin.neg(), o], [o, sin, cos, o], [o, o, o, i])
}

/// The matrix of the rotation around the y axis by `angle`, in radians.
pub fn rotation_y<A: Arithmetic>(angle: Scalar, ops: &A) -> (m: Matrix)
    requires
        steady(ops),
    ensures
        m@.wf(),
        m@ == rotation_y_of(cosine_of(ops, angle), sine_of(ops, angle)),
{
    let o = Scalar::zero();
    let i = Scalar::one();
    let cos = ops.cosine(angle);
    let sin = ops.sine(angle);
    from_rows([cos, o, sin, o], [o, i, o, o], [sin.neg(), o, cos, o], [o, o, o, i])
}

/// The matrix of the rotation around the z axis by `angle`, in radians.
pub fn rotation_z<A: Arithmetic>(angle: Scalar, ops: &A) -> (m: Matrix)
    requires
        steady(ops),
    ensures
        m@.wf(),
        m@ == rotation_z_of(cosine_of(ops, angle), sine_of(ops, angle)),
{
    let o = Scalar::zero();
    let i = Scalar::one();
    let cos = ops.cosine(angle);
    let sin = ops.sine(angle);
    from_rows([cos, sin.neg(), o, o], [sin, cos, o, o], [o, o, i, o], [o, o, o, i])
}

/// The matrix of the shearing with the six given proportions.
pub fn shearing(xy: Scalar, xz: Scalar, yx: Scalar, yz: Scalar, zx: Scalar, zy: Scalar) -> (m:
    Matrix)
    ensures
        m@.wf(),
        m@ == shearing_of(xy, xz, yx, yz, zx, zy),
{
    let o = Scalar::zero();
    let i = Scalar::one();
    from_rows([i, xy, xz, o], [yx, i, yz, o], [zx, zy, i, o], [o, o, o, i])
}

/// The orientation matrix of a view that looks along `forward`, with `left`
/// to its left and `true_up` above.
pub fn view_orientation(left: &Tuple, true_up: &Tuple, forward: &Tuple) -> (m: Matrix)
    ensures
        m@.wf(),
        m@ == orientation_of(*left, *true_up, *forward),
{
    let o = Scalar::zero();
    let i = Scalar::one();
    from_rows(
        [left.x, left.y, left.z, o],
        [true_up.x, true_up.y, true_up.z, o],
        [forward.x.neg(), forward.y.neg(), forward.z.neg(), o],
        [o, o, o, i],
    )
}

/// The view transformation for an eye at `from` that looks toward `to`,
/// with `up` pointing upward, where `forward` is the unit vector from the
/// eye toward `to` and `upward` the unit vector along `up`: the orientation
/// of the view times the translation that brings the eye to the origin.
pub open spec fn view_along<A: Arithmetic>(from: Tuple, forward: Tuple, upward: Tuple, ops: &A) -> MatrixView {
    let left = forward.cross_product(upward, ops);
    let true_up = left.cross_product(forward, ops);
    orientation_of(left, true_up, forward).multiplied(
        translation_of(from.x.negated(), from.y.negated(), from.z.negated()),
        ops,
    )
}

/// The view transformation for an eye at the point `from` that looks toward
/// the point `to`, with the vector `up` pointing upward. There is none
/// where `from` or `to` is no point or `up` no vector, where the eye looks
/// at itself or `up` has no direction, or where the units of the two
/// directions are no vectors.
#[verifier::opaque]
pub open spec fn view_of<A: Arithmetic>(from: Tuple, to: Tuple, up: Tuple, ops: &A) -> Result<
    MatrixView,
    Error,
> {
    if !(from.point() && to.point() && up.vector()) {
        Err(Error::InvariantViolation)
    } else {
        match (to.subtracted(from, ops).unit(ops), up.unit(ops)) {
            (Ok(forward), Ok(upward)) => if forward.vector() && upward.vector() {
                Ok(view_along(from, forward, upward, ops))
            } else {
                Err(Error::InvariantViolation)
            },
            (Err(e), _) => Err(e),
            (_, Err(e)) => Err(e),
        }
    }
}

/// The view transformation for an eye at `from` that looks toward `to`,
/// with `up` pointing upward.
pub fn view<A: Arithmetic>(from: &Tuple, to: &Tuple, up: &Tuple, ops: &A) -> (r: Result<
    Matrix,
    Error,
>)
    requires
        steady(ops),
    ensures
        match r {
            Ok(m) => m@.wf() && view_of(*from, *to, *up, ops) == Ok::<MatrixView, Error>(m@),
            Err(e) => view_of(*from, *to, *up, ops) == Err::<MatrixView, Error>(e),
        },
{
    reveal(view_of);
    if !(from.is_point() && to.is_point() && up.is_vector()) {
        return Err(Error::InvariantViolation);
    }
    let forward = match to.minus(from, ops).normalized(ops) {
        Ok(t) => t,
        Err(e) => {
            return Err(e);
        },
    };
    let upward = match up.normalized(ops) {
        Ok(t) => t,
        Err(e) => {
            return Err(e);
        },
    };
    if !(forward.is_vector() && upward.is_vector()) {
        return Err(Error::InvariantViolation);
    }
    let left = forward.cross(&upward, ops);
    let true_up = left.cross(&forward, ops);
    let orientation = view_orientation(&left, &true_up, &forward);
    let eye = from.neg();
    let moved = translation(eye.x, eye.y, eye.z);
    orientation.mul(&moved, ops)
}

/// The identity is the translation by nothing and the scaling by one.
pub proof fn lemma_identity()
    ensures
        translation_of(Scalar::spec_zero(), Scalar::spec_zero(), Scalar::spec_zero())
            == MatrixView::identity(4),
        scaling_of(Scalar::spec_one(), Scalar::spec_one(), Scalar::spec_one())
            == MatrixView::identity(4),
{
    let o = Scalar::spec_zero();
    let i = Scalar::spec_one();
    assert(translation_of(o, o, o).cells =~= MatrixView::identity(4).cells);
    assert(scaling_of(i, i, i).cells =~= MatrixView::identity(4).cells);
}

} // verus!
