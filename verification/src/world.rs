//! The scene: one light and a list of shapes; the order of the crossings of
//! a ray with the scene, the crossing that is shaded, and whether a point
//! lies in shadow.

use vstd::prelude::*;
use crate::arithmetic::{steady, Arithmetic};
use crate::color::Color;
use crate::error::Error;
use crate::light::{lighting, lit, PointLight, PointStatus};
use crate::ray::{Ray, RayView};
use crate::scalar::{lemma_order_total, Scalar};
use crate::shape::{hit_of, Computations, Intersection, IntersectionList, Shape};
use crate::tuple::Tuple;

verus! {

/// A scene to render. The handle of a shape is its index in `objects`.
pub struct World {
    pub light: PointLight,
    pub objects: Vec<Shape>,
}

/// `x` put into `sorted` behind every crossing that is not farther than it.
pub open spec fn inserted(sorted: Seq<Intersection>, x: Intersection) -> Seq<Intersection>
    decreases sorted.len(),
{
    if sorted.len() == 0 {
        seq![x]
    } else if sorted.last().distance.at_most(x.distance) {
        sorted.push(x)
    } else {
        inserted(sorted.drop_last(), x).push(sorted.last())
    }
}

/// The crossings of `xs` by rising distance, those of equal distance in the
/// order in which `xs` has them.
pub open spec fn by_distance(xs: Seq<Intersection>) -> Seq<Intersection>
    decreases xs.len(),
{
    if xs.len() == 0 {
        Seq::empty()
    } else {
        inserted(by_distance(xs.drop_last()), xs.last())
    }
}

/// No distance in `xs` is a NaN.
pub open spec fn all_numbers(xs: Seq<Intersection>) -> bool {
    forall|i: int| 0 <= i < xs.len() ==> !(#[trigger] xs[i]).distance.nan()
}

/// No crossing of `xs` is farther than one behind it in the list.
pub open spec fn ordered(xs: Seq<Intersection>) -> bool {
    forall|i: int, j: int|
        0 <= i <= j < xs.len() ==> (#[trigger] xs[i]).distance.at_most((#[trigger] xs[j]).distance)
}

/// Every crossing of `xs` carries the handle of one of `count` shapes.
pub open spec fn owned(xs: Seq<Intersection>, count: nat) -> bool {
    forall|i: int| 0 <= i < xs.len() ==> (#[trigger] xs[i]).shape < count
}

/// Whether a point is lit, given the hit of the ray from the point toward
/// the light and the distance from the point to the light: a hit nearer
/// than the light puts the point in shadow.
pub open spec fn status_of(hit: Option<Intersection>, light_distance: Scalar) -> PointStatus {
    match hit {
        Some(x) => if x.distance.less(light_distance) {
            PointStatus::InShadow
        } else {
            PointStatus::InLight
        },
        None => PointStatus::InLight,
    }
}

/// Putting `x` into `sorted` is putting it at the place `at`, where every
/// crossing from `at` on is farther than `x` and the one before `at`, if
/// there is one, is not.
pub proof fn lemma_inserted_at(sorted: Seq<Intersection>, x: Intersection, at: int)
    requires
        0 <= at <= sorted.len(),
        at > 0 ==> sorted[at - 1].distance.at_most(x.distance),
        forall|k: int| at <= k < sorted.len() ==> !(#[trigger] sorted[k]).distance.at_most(x.distance),
    ensures
        inserted(sorted, x) == sorted.insert(at, x),
    decreases sorted.len(),
{
    if sorted.len() == 0 {
        assert(sorted.insert(at, x) =~= seq![x]);
    } else if at == sorted.len() {
        assert(sorted.insert(at, x) =~= sorted.push(x));
    } else {
        assert(!sorted[sorted.len() - 1].distance.at_most(x.distance));
        lemma_inserted_at(sorted.drop_last(), x, at);
        assert(sorted.insert(at, x) =~= sorted.drop_last().insert(at, x).push(sorted.last()));
    }
}

/// Putting a crossing into a list adds that crossing and no other.
pub proof fn lemma_inserted_permutes(sorted: Seq<Intersection>, x: Intersection)
    ensures
        inserted(sorted, x).len() == sorted.len() + 1,
        inserted(sorted, x).to_multiset() == sorted.to_multiset().insert(x),
    decreases sorted.len(),
{
    broadcast use vstd::seq_lib::group_to_multiset_ensures;

    let r = inserted(sorted, x);
    if sorted.len() == 0 {
        assert(sorted =~= Seq::empty());
        assert(r =~= Seq::<Intersection>::empty().push(x));
    } else if sorted.last().distance.at_most(x.distance) {
    } else {
        let front = sorted.drop_last();
        lemma_inserted_permutes(front, x);
        assert(sorted =~= front.push(sorted.last()));
        assert(r.to_multiset() =~= sorted.to_multiset().insert(x));
    }
}

/// Ordering crossings gives the crossings that were given, each as often as
/// it was given, whatever their distances.
pub proof fn lemma_by_distance_permutes(xs: Seq<Intersection>)
    ensures
        by_distance(xs).len() == xs.len(),
        by_distance(xs).to_multiset() == xs.to_multiset(),
    decreases xs.len(),
{
    broadcast use vstd::seq_lib::group_to_multiset_ensures;

    if xs.len() == 0 {
        assert(xs =~= Seq::empty());
    } else {
        let front = xs.drop_last();
        lemma_by_distance_permutes(front);
        lemma_inserted_permutes(by_distance(front), xs.last());
        assert(xs =~= front.push(xs.last()));
    }
}

/// Putting a crossing into an ordered list of numbers leaves it ordered,
/// and adds that crossing and no other.
pub proof fn lemma_inserted(sorted: Seq<Intersection>, x: Intersection)
    requires
        ordered(sorted),
        all_numbers(sorted),
        !x.distance.nan(),
    ensures
        ordered(inserted(sorted, x)),
        all_numbers(inserted(sorted, x)),
        inserted(sorted, x).len() == sorted.len() + 1,
        inserted(sorted, x).to_multiset() == sorted.to_multiset().insert(x),
    decreases sorted.len(),
{
    broadcast use vstd::seq_lib::group_to_multiset_ensures;

    let r = inserted(sorted, x);
    if sorted.len() == 0 {
        assert(sorted =~= Seq::empty());
        assert(r =~= Seq::<Intersection>::empty().push(x));
    } else if sorted.last().distance.at_most(x.distance) {
        assert forall|i: int, j: int| 0 <= i <= j < r.len() implies (#[trigger] r[i]).distance.at_most(
            (#[trigger] r[j]).distance,
        ) by {
            if j == sorted.len() {
                if i < j {
                    assert(sorted[i].distance.at_most(sorted.last().distance));
                }
            } else {
                assert(sorted[i].distance.at_most(sorted[j].distance));
            }
        }
    } else {
        let front = sorted.drop_last();
        let last = sorted.last();
        assert(ordered(front)) by {
            assert forall|i: int, j: int| 0 <= i <= j < front.len() implies (#[trigger] front[i]).distance.at_most(
                (#[trigger] front[j]).distance,
            ) by {
                assert(sorted[i].distance.at_most(sorted[j].distance));
            }
        }
        assert(all_numbers(front)) by {
            assert forall|i: int| 0 <= i < front.len() implies !(#[trigger] front[i]).distance.nan() by {
                assert(!sorted[i].distance.nan());
            }
        }
        lemma_inserted(front, x);
        let inner = inserted(front, x);
        assert(!last.distance.nan()) by {
            assert(!sorted[sorted.len() - 1].distance.nan());
        }
        lemma_order_total(last.distance, x.distance);
        // Every crossing of `inner` is one of `front` or `x`, so none is
        // farther than `last`.
        assert forall|i: int| 0 <= i < inner.len() implies (#[trigger] inner[i]).distance.at_most(
            last.distance,
        ) by {
            let y = inner[i];
            assert(inner.to_multiset().count(y) > 0);
            if y != x {
                assert(front.to_multiset().count(y) > 0);
                let k = choose|k: int| 0 <= k < front.len() && front[k] == y;
                assert(sorted[k].distance.at_most(sorted[sorted.len() - 1].distance));
            }
        }
        assert forall|i: int, j: int| 0 <= i <= j < r.len() implies (#[trigger] r[i]).distance.at_most(
            (#[trigger] r[j]).distance,
        ) by {
            if j == inner.len() {
                if i < j {
                    assert(inner[i].distance.at_most(last.distance));
                }
            } else {
                assert(inner[i].distance.at_most(inner[j].distance));
            }
        }
        assert(all_numbers(r)) by {
            assert forall|i: int| 0 <= i < r.len() implies !(#[trigger] r[i]).distance.nan() by {
                if i < inner.len() {
                    assert(!inner[i].distance.nan());
                }
            }
        }
        assert(sorted =~= front.push(last));
        assert(r.to_multiset() =~= sorted.to_multiset().insert(x));
    }
}

/// The crossings by rising distance are ordered, and they are the crossings
/// that were given, each as often as it was given.
pub proof fn lemma_by_distance(xs: Seq<Intersection>)
    requires
        all_numbers(xs),
    ensures
        ordered(by_distance(xs)),
        all_numbers(by_distance(xs)),
        by_distance(xs).len() == xs.len(),
        by_distance(xs).to_multiset() == xs.to_multiset(),
    decreases xs.len(),
{
    broadcast use vstd::seq_lib::group_to_multiset_ensures;

    if xs.len() == 0 {
        assert(xs =~= Seq::empty());
    } else {
        let front = xs.drop_last();
        assert(all_numbers(front)) by {
            assert forall|i: int| 0 <= i < front.len() implies !(#[trigger] front[i]).distance.nan() by {
                assert(!xs[i].distance.nan());
            }
        }
        lemma_by_distance(front);
        assert(!xs[xs.len() - 1].distance.nan());
        lemma_inserted(by_distance(front), xs.last());
        assert(xs =~= front.push(xs.last()));
    }
}

/// Ordering crossings keeps them with their shapes.
pub proof fn lemma_by_distance_owned(xs: Seq<Intersection>, count: nat)
    requires
        owned(xs, count),
    ensures
        owned(by_distance(xs), count),
    decreases xs.len(),
{
    if xs.len() > 0 {
        let front = xs.drop_last();
        assert(owned(front, count)) by {
            assert forall|i: int| 0 <= i < front.len() implies (#[trigger] front[i]).shape
                < count by {
                assert(xs[i].shape < count);
            }
        }
        lemma_by_distance_owned(front, count);
        assert(xs[xs.len() - 1].shape < count);
        lemma_inserted_owned(by_distance(front), xs.last(), count);
    }
}

/// Putting a crossing among crossings keeps all of them with their shapes.
pub proof fn lemma_inserted_owned(sorted: Seq<Intersection>, x: Intersection, count: nat)
    requires
        owned(sorted, count),
        x.shape < count,
    ensures
        owned(inserted(sorted, x), count),
    decreases sorted.len(),
{
    if sorted.len() > 0 && !sorted.last().distance.at_most(x.distance) {
        let front = sorted.drop_last();
        assert(owned(front, count)) by {
            assert forall|i: int| 0 <= i < front.len() implies (#[trigger] front[i]).shape
                < count by {
                assert(sorted[i].shape < count);
            }
        }
        lemma_inserted_owned(front, x, count);
        assert(sorted[sorted.len() - 1].shape < count);
    }
}

/// A list that is ordered already stays as it is.
pub proof fn lemma_by_distance_ordered(xs: Seq<Intersection>)
    requires
        ordered(xs),
    ensures
        by_distance(xs) == xs,
    decreases xs.len(),
{
    if xs.len() == 0 {
        assert(xs =~= Seq::empty());
    } else {
        let front = xs.drop_last();
        assert(ordered(front)) by {
            assert forall|i: int, j: int| 0 <= i <= j < front.len() implies (#[trigger] front[i]).distance.at_most(
                (#[trigger] front[j]).distance,
            ) by {
                assert(xs[i].distance.at_most(xs[j].distance));
            }
        }
        lemma_by_distance_ordered(front);
        if front.len() > 0 {
            assert(xs[front.len() - 1].distance.at_most(xs[xs.len() - 1].distance));
            assert(front.last() == xs[front.len() - 1]);
        }
        assert(xs =~= front.push(xs.last()));
    }
}

impl World {
    /// Creates the scene with the given light and shapes.
    pub fn new(light: PointLight, objects: Vec<Shape>) -> (w: World)
        ensures
            w.light == light,
            w.objects == objects,
    {
        World { light, objects }
    }

    /// Orders crossings by rising distance, those of equal distance in the
    /// order given. A NaN among the distances has no place in that order:
    /// what comes out is ordered if there is none.
    pub fn sort(found: Vec<Intersection>) -> (xs: Vec<Intersection>)
        ensures
            xs@ == by_distance(found@),
            xs@.to_multiset() == found@.to_multiset(),
            all_numbers(found@) ==> ordered(xs@),
    {
        let mut xs: Vec<Intersection> = Vec::new();
        let mut i: usize = 0;
        assert(found@.take(0) =~= Seq::empty());
        while i < found.len()
            invariant
                i <= found.len(),
                xs@ == by_distance(found@.take(i as int)),
                xs@.len() == i,
            decreases found.len() - i,
        {
            let x = found[i];
            let mut at: usize = xs.len();
            while at > 0 && !xs[at - 1].distance.le(x.distance)
                invariant
                    at <= xs.len(),
                    forall|k: int| at <= k < xs.len() ==> !(#[trigger] xs@[k]).distance.at_most(x.distance),
                decreases at,
            {
                at -= 1;
            }
            proof {
                lemma_inserted_at(xs@, x, at as int);
                assert(found@.take(i + 1).drop_last() =~= found@.take(i as int));
                assert(found@.take(i + 1).last() == x);
            }
            xs.insert(at, x);
            i += 1;
        }
        proof {
            assert(found@.take(found.len() as int) =~= found@);
            lemma_by_distance_permutes(found@);
            if all_numbers(found@) {
                lemma_by_distance(found@);
            }
        }
        xs
    }

    /// The crossing that is shaded: the first of the ordered crossings,
    /// which is the one with the least distance, in front of the ray or
    /// behind it. A ray whose nearest crossing lies behind its origin is
    /// shaded there; the hit is used for shadows only.
    pub fn shading_hit(xs: &Vec<Intersection>) -> (r: Option<Intersection>)
        ensures
            r == if xs@.len() == 0 {
                None
            } else {
                Some(xs@[0])
            },
    {
        if xs.len() == 0 {
            None
        } else {
            Some(xs[0])
        }
    }

    /// Whether a point lies in shadow, given the crossings of the ray from
    /// the point toward the light and the distance from the point to the
    /// light.
    pub fn status(xs: &Vec<Intersection>, light_distance: Scalar) -> (r: PointStatus)
        ensures
            r == status_of(hit_of(xs@), light_distance),
    {
        match xs.hit() {
            Some(x) => {
                if x.distance.lt(light_distance) {
                    PointStatus::InShadow
                } else {
                    PointStatus::InLight
                }
            },
            None => PointStatus::InLight,
        }
    }
}

impl World {
    /// The crossings of a ray with the first `n` shapes of the scene, in the
    /// order of the handles, or the failure of the first shape that fails.
    pub open spec fn found<A: Arithmetic>(&self, ray: RayView, n: nat, ops: &A) -> Result<
        Seq<Intersection>,
        Error,
    >
        decreases n,
    {
        if n == 0 {
            Ok(Seq::empty())
        } else {
            match self.found(ray, (n - 1) as nat, ops) {
                Ok(before) => match self.objects@[n - 1].crossings((n - 1) as usize, ray, ops) {
                    Ok(part) => Ok(before + part),
                    Err(e) => Err(e),
                },
                Err(e) => Err(e),
            }
        }
    }

    /// The crossings of a ray with the scene, by rising distance. There
    /// are none where a shape fails, or where a distance is a NaN.
    pub open spec fn crossings<A: Arithmetic>(&self, ray: RayView, ops: &A) -> Result<
        Seq<Intersection>,
        Error,
    > {
        match self.found(ray, self.objects@.len(), ops) {
            Ok(found) => if all_numbers(found) {
                Ok(by_distance(found))
            } else {
                Err(Error::InvariantViolation)
            },
            Err(e) => Err(e),
        }
    }

    /// Whether the point `pt` lies in shadow: whether the ray from the
    /// point toward the light hits a shape nearer than the light. There is
    /// no answer where `pt` is no point, where the light stands at the
    /// point, or where the ray has no crossings.
    #[verifier::opaque]
    pub open spec fn shadow<A: Arithmetic>(&self, pt: Tuple, ops: &A) -> Result<PointStatus, Error> {
        let to_light = self.light.position.subtracted(pt, ops);
        if !pt.point() {
            Err(Error::InvariantViolation)
        } else {
            match to_light.unit(ops) {
                Ok(direction) => match RayView::checked(pt, direction) {
                    Ok(ray) => match self.crossings(ray, ops) {
                        Ok(xs) => Ok(status_of(hit_of(xs), to_light.length(ops))),
                        Err(e) => Err(e),
                    },
                    Err(e) => Err(e),
                },
                Err(e) => Err(e),
            }
        }
    }

    /// The color of the crossing that `comps` describes: the color of the
    /// point moved along the normal, under the light of the scene and with
    /// the material of the shape that is crossed, in shadow or not. There
    /// is none where the scene has no such shape.
    #[verifier::opaque]
    pub open spec fn shade<A: Arithmetic>(&self, comps: Computations, ops: &A) -> Result<
        Color,
        Error,
    > {
        if comps.object >= self.objects@.len() {
            Err(Error::IndexOutOfRange)
        } else {
            match self.shadow(comps.over_point, ops) {
                Ok(status) => lit(
                    self.objects@[comps.object as int].material,
                    self.light,
                    comps.over_point,
                    comps.eye_vec,
                    comps.normal_vec,
                    status,
                    ops,
                ),
                Err(e) => Err(e),
            }
        }
    }

    /// The color that a ray sees: black where it crosses nothing, else the
    /// color of the first of its ordered crossings.
    #[verifier::opaque]
    pub open spec fn seen<A: Arithmetic>(&self, ray: RayView, ops: &A) -> Result<Color, Error> {
        match self.crossings(ray, ops) {
            Ok(xs) => if xs.len() == 0 {
                Ok(Color::gray(Scalar::spec_zero()))
            } else {
                match xs[0].computations(&self.objects@[xs[0].shape as int], ray, ops) {
                    Ok(comps) => self.shade(comps, ops),
                    Err(e) => Err(e),
                }
            },
            Err(e) => Err(e),
        }
    }

    /// The crossings of a ray with every shape of the scene, by rising
    /// distance, those of equal distance in the order of the handles.
    pub fn intersects<A: Arithmetic>(&self, ray: &Ray, ops: &A) -> (r: Result<
        Vec<Intersection>,
        Error,
    >)
        requires
            steady(ops),
        ensures
            match r {
                Ok(xs) => self.crossings(ray@, ops) == Ok::<Seq<Intersection>, Error>(xs@)
                    && ordered(xs@) && owned(xs@, self.objects@.len()),
                Err(e) => self.crossings(ray@, ops) == Err::<Seq<Intersection>, Error>(e),
            },
    {
        let mut found: Vec<Intersection> = Vec::new();
        let mut k: usize = 0;
        while k < self.objects.len()
            invariant
                steady(ops),
                k <= self.objects.len(),
                self.found(ray@, k as nat, ops) == Ok::<Seq<Intersection>, Error>(found@),
            decreases self.objects.len() - k,
        {
            let mut part = match self.objects[k].intersections(k, ray, ops) {
                Ok(xs) => xs,
                Err(e) => {
                    proof {
                        self.lemma_found_fails(ray@, k as nat, self.objects@.len(), e, ops);
                    }
                    return Err(e);
                },
            };
            found.append(&mut part);
            k += 1;
        }
        let mut i: usize = 0;
        while i < found.len()
            invariant
                i <= found.len(),
                self.found(ray@, self.objects@.len(), ops) == Ok::<Seq<Intersection>, Error>(
                    found@,
                ),
                forall|j: int| 0 <= j < i ==> !(#[trigger] found@[j]).distance.nan(),
            decreases found.len() - i,
        {
            if found[i].distance.is_nan() {
                assert(found@[i as int].distance.nan());
                return Err(Error::InvariantViolation);
            }
            i += 1;
        }
        proof {
            self.lemma_found_owned(ray@, self.objects@.len(), ops);
            lemma_by_distance_owned(found@, self.objects@.len());
        }
        Ok(World::sort(found))
    }

    /// Every crossing that is gathered from the first `n` shapes carries
    /// the handle of one of them.
    pub proof fn lemma_found_owned<A: Arithmetic>(&self, ray: RayView, n: nat, ops: &A)
        requires
            n <= self.objects@.len(),
        ensures
            self.found(ray, n, ops).is_ok() ==> owned(self.found(ray, n, ops).unwrap(), n),
        decreases n,
    {
        reveal(Shape::crossings);
        if n > 0 {
            self.lemma_found_owned(ray, (n - 1) as nat, ops);
        }
    }

    /// Where gathering fails at shape `k`, it fails in the same way for
    /// every number of shapes beyond `k`.
    pub proof fn lemma_found_fails<A: Arithmetic>(
        &self,
        ray: RayView,
        k: nat,
        n: nat,
        e: Error,
        ops: &A,
    )
        requires
            k < n,
            self.found(ray, k, ops).is_ok(),
            self.objects@[k as int].crossings(k as usize, ray, ops) == Err::<
                Seq<Intersection>,
                Error,
            >(e),
        ensures
            self.found(ray, n, ops) == Err::<Seq<Intersection>, Error>(e),
        decreases n,
    {
        if n > k + 1 {
            self.lemma_found_fails(ray, k, (n - 1) as nat, e, ops);
        }
    }

    /// Whether the point `pt` lies in shadow.
    pub fn point_status<A: Arithmetic>(&self, pt: &Tuple, ops: &A) -> (r: Result<
        PointStatus,
        Error,
    >)
        requires
            steady(ops),
        ensures
            r == self.shadow(*pt, ops),
    {
        reveal(World::shadow);
        if !pt.is_point() {
            return Err(Error::InvariantViolation);
        }
        let to_light = self.light.position.minus(pt, ops);
        let direction = match to_light.normalized(ops) {
            Ok(v) => v,
            Err(e) => {
                return Err(e);
            },
        };
        let ray = match Ray::new(*pt, direction) {
            Ok(r) => r,
            Err(e) => {
                return Err(e);
            },
        };
        let xs = match self.intersects(&ray, ops) {
            Ok(xs) => xs,
            Err(e) => {
                return Err(e);
            },
        };
        Ok(World::status(&xs, to_light.magnitude(ops)))
    }

    /// The color of the crossing that `comps` describes.
    pub fn shade_hit<A: Arithmetic>(&self, comps: &Computations, ops: &A) -> (r: Result<
        Color,
        Error,
    >)
        requires
            steady(ops),
        ensures
            r == self.shade(*comps, ops),
    {
        reveal(World::shade);
        if comps.object >= self.objects.len() {
            return Err(Error::IndexOutOfRange);
        }
        let status = match self.point_status(&comps.over_point, ops) {
            Ok(s) => s,
            Err(e) => {
                return Err(e);
            },
        };
        lighting(
            &self.objects[comps.object].material,
            &self.light,
            &comps.over_point,
            &comps.eye_vec,
            &comps.normal_vec,
            status,
            ops,
        )
    }

    /// The color that a ray sees.
    pub fn color_at<A: Arithmetic>(&self, ray: &Ray, ops: &A) -> (r: Result<Color, Error>)
        requires
            steady(ops),
        ensures
            r == self.seen(ray@, ops),
    {
        reveal(World::seen);
        let xs = match self.intersects(ray, ops) {
            Ok(xs) => xs,
            Err(e) => {
                return Err(e);
            },
        };
        match World::shading_hit(&xs) {
            None => Ok(crate::color::black()),
            Some(x) => {
                assert(owned(xs@, self.objects@.len()));
                let comps = match x.prepare_computations(&self.objects[x.shape], ray, ops) {
                    Ok(c) => c,
                    Err(e) => {
                        return Err(e);
                    },
                };
                self.shade_hit(&comps, ops)
            },
        }
    }
}

} // verus!
