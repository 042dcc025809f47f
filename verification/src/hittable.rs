//! Which intersection a ray takes.
//!
//! A primitive meets the line of a ray in at most two places, the roots of a
//! quadratic in the ray parameter. The caller solves the quadratic; this
//! module decides which root, if any, counts as the hit within an interval
//! of the parameter, for one primitive and for a whole scene.

use vstd::prelude::*;
use crate::scalar::Scalar;

verus! {

/// `t` lies strictly between `t_min` and `t_max`.
pub open spec fn within(t: Scalar, t_min: Scalar, t_max: Scalar) -> bool {
    t_min.less(t) && t.less(t_max)
}

/// The intersection quadratic of one primitive along one ray, solved.
///
/// `near` and `far` are what the two root formulas gave, the one that
/// subtracts the square root of the discriminant and the one that adds it.
/// They are meaningful only where the discriminant is positive.
#[derive(Clone, Copy, Debug, PartialEq, Eq)]
pub struct Roots {
    pub discriminant: Scalar,
    pub near: Scalar,
    pub far: Scalar,
}

/// An accepted intersection: the primitive's place in the scene and the ray
/// parameter at which the ray meets it.
#[derive(Clone, Copy, Debug, PartialEq, Eq)]
pub struct Hit {
    pub index: usize,
    pub t: Scalar,
}

impl Roots {
    /// The far root is not less than the near root, as the root formulas
    /// give them wherever the leading coefficient of the quadratic, the
    /// squared length of the ray's direction, is not negative.
    pub open spec fn ordered(self) -> bool {
        !self.far.less(self.near)
    }

    /// The ray crosses the primitive at parameter `x`, strictly inside the
    /// interval.
    pub open spec fn crosses_at(self, x: Scalar, t_min: Scalar, t_max: Scalar) -> bool {
        &&& self.discriminant.positive()
        &&& x == self.near || x == self.far
        &&& within(x, t_min, t_max)
    }

    /// The root taken as the hit: none unless the discriminant is positive;
    /// then the near root if it lies strictly inside the interval, else the
    /// far root if that one does.
    pub open spec fn accepted(self, t_min: Scalar, t_max: Scalar) -> Option<Scalar> {
        if !self.discriminant.positive() {
            None
        } else if within(self.near, t_min, t_max) {
            Some(self.near)
        } else if within(self.far, t_min, t_max) {
            Some(self.far)
        } else {
            None
        }
    }

    /// The solved quadratic with the given discriminant and roots.
    pub fn new(discriminant: Scalar, near: Scalar, far: Scalar) -> (r: Roots)
        ensures
            r.discriminant == discriminant,
            r.near == near,
            r.far == far,
    {
        Roots { discriminant, near, far }
    }

    /// The ray parameter at which the primitive is hit within
    /// `(t_min, t_max)`, if it is.
    pub fn hit(&self, t_min: Scalar, t_max: Scalar) -> (r: Option<Scalar>)
        ensures
            r == self.accepted(t_min, t_max),
            r matches Some(t) ==> self.crosses_at(t, t_min, t_max),
            r matches Some(t) ==> self.ordered() ==> forall|x: Scalar|
                self.crosses_at(x, t_min, t_max) ==> !x.less(t),
            r is None ==> forall|x: Scalar| !self.crosses_at(x, t_min, t_max),
    {
        if !self.discriminant.is_positive() {
            return None;
        }
        if self.near.lt(t_max) && self.near.gt(t_min) {
            return Some(self.near);
        }
        if self.far.lt(t_max) && self.far.gt(t_min) {
            return Some(self.far);
        }
        None
    }
}

/// The limit below which a later primitive must hit to replace `best`.
pub open spec fn limit_after(best: Option<Hit>, t_max: Scalar) -> Scalar {
    match best {
        Some(h) => h.t,
        None => t_max,
    }
}

/// The hit that a walk through `scene` from its first primitive to its last
/// ends with, when each primitive is tested against the interval that ends
/// at the closest hit found before it.
pub open spec fn closest(scene: Seq<Roots>, t_min: Scalar, t_max: Scalar) -> Option<Hit>
    decreases scene.len(),
{
    if scene.len() == 0 {
        None
    } else {
        let before = closest(scene.drop_last(), t_min, t_max);
        match scene.last().accepted(t_min, limit_after(before, t_max)) {
            Some(t) => Some(Hit { index: (scene.len() - 1) as usize, t }),
            None => before,
        }
    }
}

/// Every primitive of the scene has its roots in order.
pub open spec fn all_ordered(scene: Seq<Roots>) -> bool {
    forall|i: int| 0 <= i < scene.len() ==> (#[trigger] scene[i]).ordered()
}

/// A scene of one primitive is hit where that primitive is.
pub proof fn lemma_closest_of_one(only: Roots, t_min: Scalar, t_max: Scalar)
    ensures
        closest(seq![only], t_min, t_max) == match only.accepted(t_min, t_max) {
            Some(t) => Some(Hit { index: 0, t }),
            None => None,
        },
{
    let scene = seq![only];
    assert(scene.drop_last() =~= Seq::<Roots>::empty());
    assert(closest(scene.drop_last(), t_min, t_max) is None);
    assert(scene.last() == only);
}

/// The closest hit lies strictly inside the interval.
pub proof fn lemma_closest_within(scene: Seq<Roots>, t_min: Scalar, t_max: Scalar)
    ensures
        closest(scene, t_min, t_max) matches Some(h) ==> within(h.t, t_min, t_max),
    decreases scene.len(),
{
    if scene.len() > 0 {
        lemma_closest_within(scene.drop_last(), t_min, t_max);
    }
}

/// The closest hit is a crossing of the primitive it names, strictly inside
/// the interval.
pub proof fn lemma_closest_is_crossing(scene: Seq<Roots>, t_min: Scalar, t_max: Scalar)
    requires
        scene.len() <= usize::MAX,
    ensures
        closest(scene, t_min, t_max) matches Some(h) ==> {
            &&& h.index < scene.len()
            &&& scene[h.index as int].crosses_at(h.t, t_min, t_max)
        },
    decreases scene.len(),
{
    if scene.len() > 0 {
        lemma_closest_is_crossing(scene.drop_last(), t_min, t_max);
    }
}

/// A scene has no hit exactly when none of its primitives, taken alone, has
/// one.
pub proof fn lemma_closest_none(scene: Seq<Roots>, t_min: Scalar, t_max: Scalar)
    ensures
        closest(scene, t_min, t_max) is None <==> forall|i: int|
            0 <= i < scene.len() ==> (#[trigger] scene[i]).accepted(t_min, t_max) is None,
    decreases scene.len(),
{
    if scene.len() > 0 {
        let front = scene.drop_last();
        lemma_closest_none(front, t_min, t_max);
        lemma_closest_within(front, t_min, t_max);
        assert forall|i: int| 0 <= i < front.len() implies front[i] == scene[i] by {}
        if closest(scene, t_min, t_max) is None {
            assert forall|i: int| 0 <= i < scene.len() implies (#[trigger] scene[i]).accepted(
                t_min,
                t_max,
            ) is None by {
                if i < front.len() {
                    assert(front[i].accepted(t_min, t_max) is None);
                }
            }
        } else {
            if closest(front, t_min, t_max) is None {
                assert(scene[scene.len() - 1].accepted(t_min, t_max) is Some);
            } else {
                let i = choose|i: int|
                    0 <= i < front.len() && (#[trigger] front[i]).accepted(t_min, t_max) is Some;
                assert(scene[i].accepted(t_min, t_max) is Some);
            }
        }
    }
}

/// Nothing in the scene is nearer than the closest hit: where the roots of
/// every primitive are in order, a crossing of any primitive inside the
/// interval is not less than the closest hit, and a crossing of a primitive
/// that stands before the one hit is greater.
pub proof fn lemma_closest_is_nearest(
    scene: Seq<Roots>,
    t_min: Scalar,
    t_max: Scalar,
    i: int,
    x: Scalar,
)
    requires
        scene.len() <= usize::MAX,
        all_ordered(scene),
        0 <= i < scene.len(),
        scene[i].crosses_at(x, t_min, t_max),
    ensures
        closest(scene, t_min, t_max) is Some,
        !x.less(closest(scene, t_min, t_max)->0.t),
        i < closest(scene, t_min, t_max)->0.index ==> closest(scene, t_min, t_max)->0.t.less(x),
    decreases scene.len(),
{
    let front = scene.drop_last();
    let last = scene.len() - 1;
    assert(scene[last].ordered());
    lemma_closest_is_crossing(front, t_min, t_max);
    if i < last {
        assert(front[i] == scene[i]);
        assert forall|j: int| 0 <= j < front.len() implies (#[trigger] front[j]).ordered() by {
            assert(front[j] == scene[j]);
        }
        lemma_closest_is_nearest(front, t_min, t_max, i, x);
    }
}

/// Every primitive of `a` stands somewhere in `b`.
pub open spec fn all_found_in(a: Seq<Roots>, b: Seq<Roots>) -> bool {
    forall|i: int| 0 <= i < a.len() ==> b.contains(#[trigger] a[i])
}

/// The order of the primitives does not matter to how far the ray goes: two
/// scenes of the same primitives, with the roots of each in order, are both
/// missed or are hit at the same place on the ray.
pub proof fn lemma_order_does_not_matter(
    a: Seq<Roots>,
    b: Seq<Roots>,
    t_min: Scalar,
    t_max: Scalar,
)
    requires
        a.len() <= usize::MAX,
        b.len() <= usize::MAX,
        all_ordered(a),
        all_ordered(b),
        all_found_in(a, b),
        all_found_in(b, a),
    ensures
        closest(a, t_min, t_max) is None <==> closest(b, t_min, t_max) is None,
        closest(a, t_min, t_max) is Some ==> closest(a, t_min, t_max)->0.t.value() == closest(
            b,
            t_min,
            t_max,
        )->0.t.value(),
{
    lemma_closest_is_crossing(a, t_min, t_max);
    lemma_closest_is_crossing(b, t_min, t_max);
    if closest(a, t_min, t_max) is Some {
        let hit = closest(a, t_min, t_max)->0;
        let i = hit.index as int;
        assert(b.contains(a[i]));
        let j = choose|j: int| 0 <= j < b.len() && b[j] == a[i];
        lemma_closest_is_nearest(b, t_min, t_max, j, hit.t);
    }
    if closest(b, t_min, t_max) is Some {
        let hit = closest(b, t_min, t_max)->0;
        let j = hit.index as int;
        assert(a.contains(b[j]));
        let i = choose|i: int| 0 <= i < a.len() && a[i] == b[j];
        lemma_closest_is_nearest(a, t_min, t_max, i, hit.t);
    }
}

/// The nearest hit of a ray in a scene, strictly inside `(t_min, t_max)`.
///
/// `scene` holds the solved quadratic of each primitive along the ray, in
/// the order of the scene. The primitives are tested in that order, each
/// against the interval that ends at the closest hit so far, so that a later
/// primitive replaces an earlier one only where it is hit strictly nearer.
pub fn nearest_hit(scene: &Vec<Roots>, t_min: Scalar, t_max: Scalar) -> (r: Option<Hit>)
    ensures
        r == closest(scene@, t_min, t_max),
        r is None <==> forall|i: int|
            0 <= i < scene.len() ==> (#[trigger] scene[i]).accepted(t_min, t_max) is None,
        r matches Some(h) ==> {
            &&& h.index < scene.len()
            &&& scene[h.index as int].crosses_at(h.t, t_min, t_max)
        },
        r matches Some(h) ==> all_ordered(scene@) ==> forall|i: int, x: Scalar|
            0 <= i < scene.len() && #[trigger] scene[i].crosses_at(x, t_min, t_max) ==> {
                &&& !x.less(h.t)
                &&& i < h.index ==> h.t.less(x)
            },
{
    let mut best: Option<Hit> = None;
    let mut closest_so_far: Scalar = t_max;
    let mut i: usize = 0;
    while i < scene.len()
        invariant
            i <= scene.len(),
            best == closest(scene@.take(i as int), t_min, t_max),
            closest_so_far == limit_after(best, t_max),
        decreases scene.len() - i,
    {
        proof {
            assert(scene@.take(i + 1).drop_last() =~= scene@.take(i as int));
        }
        match scene[i].hit(t_min, closest_so_far) {
            Some(t) => {
                closest_so_far = t;
                best = Some(Hit { index: i, t });
            },
            None => {},
        }
        i += 1;
    }
    proof {
        assert(scene@.take(scene.len() as int) =~= scene@);
        lemma_closest_none(scene@, t_min, t_max);
        lemma_closest_is_crossing(scene@, t_min, t_max);
        if best is Some && all_ordered(scene@) {
            assert forall|j: int, x: Scalar|
                0 <= j < scene.len() && #[trigger] scene[j].crosses_at(x, t_min, t_max) implies {
                &&& !x.less(best->0.t)
                &&& j < best->0.index ==> best->0.t.less(x)
            } by {
                lemma_closest_is_nearest(scene@, t_min, t_max, j, x);
            }
        }
    }
    best
}

} // verus!
