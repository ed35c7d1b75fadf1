//! Which root of a sphere's quadratic is the crossing.

use vstd::prelude::*;
use crate::scalar::Scalar;

verus! {

/// One of the two roots of a ray's quadratic against a sphere.
#[derive(Clone, Copy, Debug, PartialEq, Eq, Structural)]
pub enum Root {
    /// The root with the square root subtracted.
    Near,
    /// The root with the square root added.
    Far,
}

/// A ray's quadratic against one sphere, solved: the discriminant in the
/// halved-b form and the two parameters at which the ray meets the surface.
#[derive(Clone, Copy, Debug, PartialEq, Eq, Structural)]
pub struct SphereRoots {
    pub discriminant: Scalar,
    pub near: Scalar,
    pub far: Scalar,
}

impl SphereRoots {
    /// The ray parameter of a root.
    pub open spec fn param(self, root: Root) -> Scalar {
        match root {
            Root::Near => self.near,
            Root::Far => self.far,
        }
    }

    /// A root counts when the discriminant is positive and the root lies
    /// strictly inside `(t_min, t_max)`.
    pub open spec fn valid(self, root: Root, t_min: Scalar, t_max: Scalar) -> bool {
        self.discriminant.positive() && self.param(root).inside(t_min, t_max)
    }

    /// The smaller of the roots that count, the near one where they tie.
    pub open spec fn hit_spec(self, t_min: Scalar, t_max: Scalar) -> Option<Root> {
        if self.valid(Root::Near, t_min, t_max) {
            if self.valid(Root::Far, t_min, t_max) && self.far.lt_spec(self.near) {
                Some(Root::Far)
            } else {
                Some(Root::Near)
            }
        } else if self.valid(Root::Far, t_min, t_max) {
            Some(Root::Far)
        } else {
            None
        }
    }

    pub fn new(discriminant: Scalar, near: Scalar, far: Scalar) -> (s: SphereRoots)
        ensures
            s.discriminant == discriminant,
            s.near == near,
            s.far == far,
    {
        SphereRoots { discriminant, near, far }
    }

    /// The ray parameter of a root.
    pub fn parameter(&self, root: Root) -> (t: Scalar)
        ensures
            t == self.param(root),
    {
        match root {
            Root::Near => self.near,
            Root::Far => self.far,
        }
    }

    /// The crossing of the ray with the sphere within `(t_min, t_max)`.
    ///
    /// There is one exactly when some root counts; it is then a root that
    /// counts and that no other such root precedes.
    pub fn hit(&self, t_min: Scalar, t_max: Scalar) -> (r: Option<Root>)
        ensures
            r == self.hit_spec(t_min, t_max),
            r is None <==> !self.valid(Root::Near, t_min, t_max) && !self.valid(
                Root::Far,
                t_min,
                t_max,
            ),
            r matches Some(root) ==> self.valid(root, t_min, t_max) && forall|other: Root|
                self.valid(other, t_min, t_max) ==> self.param(root).le_spec(
                    #[trigger] self.param(other),
                ),
    {
        if !self.discriminant.is_positive() {
            return None;
        }
        let near_counts: bool = self.near.gt(t_min) && self.near.lt(t_max);
        let far_counts: bool = self.far.gt(t_min) && self.far.lt(t_max);
        if near_counts {
            if far_counts && self.far.lt(self.near) {
                Some(Root::Far)
            } else {
                Some(Root::Near)
            }
        } else if far_counts {
            Some(Root::Far)
        } else {
            None
        }
    }
}

/// With ordered roots, as the quadratic formula gives them, the crossing is
/// the near root if it counts and else the far one.
pub proof fn lemma_ordered_roots_try_near_first(s: SphereRoots, t_min: Scalar, t_max: Scalar)
    requires
        !s.far.lt_spec(s.near),
    ensures
        s.hit_spec(t_min, t_max) == if s.valid(Root::Near, t_min, t_max) {
            Some(Root::Near)
        } else if s.valid(Root::Far, t_min, t_max) {
            Some(Root::Far)
        } else {
            None::<Root>
        },
{
}

/// Narrowing the interval from above never brings another root forward: a
/// crossing within the narrower interval is the crossing within the wider
/// one, and a sphere not struck within the wider one is not struck within
/// the narrower.
pub proof fn lemma_hit_narrowing(s: SphereRoots, t_min: Scalar, t_max: Scalar, closer: Scalar)
    requires
        closer.le_spec(t_max),
    ensures
        s.hit_spec(t_min, closer) matches Some(root) ==> s.hit_spec(t_min, t_max) == Some(root),
        s.hit_spec(t_min, t_max) is None ==> s.hit_spec(t_min, closer) is None,
{
}

} // verus!
