//! The scene as an ordered list, and the member a ray strikes first.

use vstd::prelude::*;
use crate::scalar::Scalar;
use crate::sphere::{Root, SphereRoots};

verus! {

/// The nearest crossing of a ray with a scene: which member is struck, at
/// which of its roots, and the ray parameter there.
#[derive(Clone, Copy, Debug, PartialEq, Eq, Structural)]
pub struct HitRecord {
    pub index: usize,
    pub root: Root,
    pub t: Scalar,
}

/// One ray against every member of a scene, in the scene's order.
pub struct HitableList {
    pub hitables: Vec<SphereRoots>,
}

impl HitableList {
    /// The members, in order.
    pub open spec fn view(&self) -> Seq<SphereRoots> {
        self.hitables@
    }

    /// Member `j` is not struck within `(t_min, t_max)`.
    pub open spec fn misses(&self, j: int, t_min: Scalar, t_max: Scalar) -> bool {
        self@[j].hit_spec(t_min, t_max) is None
    }

    /// Member `j` is struck within `(t_min, t_max)` only after `t`.
    pub open spec fn struck_after(&self, j: int, t: Scalar, t_min: Scalar, t_max: Scalar) -> bool {
        self@[j].hit_spec(t_min, t_max) matches Some(root) ==> t.lt_spec(self@[j].param(root))
    }

    /// `rec` is the crossing of member `rec.index` within `(t_min, t_max)`.
    pub open spec fn records(&self, rec: HitRecord, t_min: Scalar, t_max: Scalar) -> bool {
        &&& rec.index < self@.len()
        &&& self@[rec.index as int].hit_spec(t_min, t_max) == Some(rec.root)
        &&& rec.t == self@[rec.index as int].param(rec.root)
    }

    /// `rec` is the nearest crossing with the first `n` members: it is one
    /// of them, none of them is struck before `rec.t`, and those ahead of
    /// it in the list are struck strictly later.
    pub open spec fn nearest_of(
        &self,
        n: int,
        rec: HitRecord,
        t_min: Scalar,
        t_max: Scalar,
    ) -> bool {
        &&& self.records(rec, t_min, t_max)
        &&& rec.index < n
        &&& forall|j: int| 0 <= j < n ==> #[trigger] self.misses(j, t_min, rec.t)
        &&& forall|j: int| 0 <= j < rec.index ==> #[trigger] self.struck_after(j, rec.t, t_min, t_max)
    }

    /// What `hit` returns: nothing when no member is struck within
    /// `(t_min, t_max)`, else the nearest crossing, the earliest member
    /// winning a tie.
    pub open spec fn hit_spec(&self, r: Option<HitRecord>, t_min: Scalar, t_max: Scalar) -> bool {
        match r {
            None => forall|j: int| 0 <= j < self@.len() ==> #[trigger] self.misses(j, t_min, t_max),
            Some(rec) => self.nearest_of(self@.len() as int, rec, t_min, t_max),
        }
    }

    pub fn new(hitables: Vec<SphereRoots>) -> (list: HitableList)
        ensures
            list@ == hitables@,
    {
        HitableList { hitables }
    }

    /// The number of members.
    pub fn len(&self) -> (n: usize)
        ensures
            n == self@.len(),
    {
        self.hitables.len()
    }

    /// The nearest crossing of the ray with any member within
    /// `(t_min, t_max)`.
    ///
    /// The members are scanned once, in order; each is asked for a crossing
    /// below the closest one so far.
    pub fn hit(&self, t_min: Scalar, t_max: Scalar) -> (r: Option<HitRecord>)
        ensures
            self.hit_spec(r, t_min, t_max),
    {
        let mut closest_so_far: Scalar = t_max;
        let mut hit_anything: Option<HitRecord> = None;
        let mut i: usize = 0;
        while i < self.hitables.len()
            invariant
                i <= self@.len(),
                match hit_anything {
                    None => closest_so_far == t_max && forall|j: int|
                        0 <= j < i ==> #[trigger] self.misses(j, t_min, t_max),
                    Some(rec) => closest_so_far == rec.t && self.nearest_of(
                        i as int,
                        rec,
                        t_min,
                        t_max,
                    ),
                },
            decreases self@.len() - i,
        {
            let member: &SphereRoots = &self.hitables[i];
            match member.hit(t_min, closest_so_far) {
                Some(root) => {
                    let t: Scalar = member.parameter(root);
                    let rec = HitRecord { index: i, root, t };
                    proof {
                        assert(self.records(rec, t_min, t_max));
                        assert forall|j: int| 0 <= j < i + 1 implies #[trigger] self.misses(
                            j,
                            t_min,
                            t,
                        ) by {
                            if j < i {
                                match hit_anything {
                                    None => {
                                        assert(self.misses(j, t_min, t_max));
                                    },
                                    Some(old_rec) => {
                                        assert(self.misses(j, t_min, old_rec.t));
                                    },
                                }
                            }
                        }
                        assert forall|j: int| 0 <= j < i implies #[trigger] self.struck_after(
                            j,
                            t,
                            t_min,
                            t_max,
                        ) by {
                            match hit_anything {
                                None => {
                                    assert(self.misses(j, t_min, t_max));
                                },
                                Some(old_rec) => {
                                    assert(self.misses(j, t_min, old_rec.t));
                                    if j < old_rec.index {
                                        assert(self.struck_after(j, old_rec.t, t_min, t_max));
                                    }
                                },
                            }
                        }
                    }
                    closest_so_far = t;
                    hit_anything = Some(rec);
                },
                None => {
                    proof {
                        assert(self.misses(i as int, t_min, closest_so_far));
                    }
                },
            }
            i = i + 1;
        }
        hit_anything
    }
}

/// At most one record meets `hit_spec`: the scan's answer is determined by
/// the members and the interval.
pub proof fn lemma_hit_unique(
    list: HitableList,
    a: Option<HitRecord>,
    b: Option<HitRecord>,
    t_min: Scalar,
    t_max: Scalar,
)
    requires
        list.hit_spec(a, t_min, t_max),
        list.hit_spec(b, t_min, t_max),
    ensures
        a == b,
{
    match (a, b) {
        (Some(ra), Some(rb)) => {
            if ra.index < rb.index {
                assert(list.struck_after(ra.index as int, rb.t, t_min, t_max));
                assert(list.misses(rb.index as int, t_min, ra.t));
            } else if rb.index < ra.index {
                assert(list.struck_after(rb.index as int, ra.t, t_min, t_max));
                assert(list.misses(ra.index as int, t_min, rb.t));
            }
        },
        (Some(ra), None) => {
            assert(list.misses(ra.index as int, t_min, t_max));
        },
        (None, Some(rb)) => {
            assert(list.misses(rb.index as int, t_min, t_max));
        },
        (None, None) => {},
    }
}

/// The order of the members decides ties only: the parameter of the
/// nearest crossing is below or equal to every member's own crossing.
pub proof fn lemma_hit_is_nearest(
    list: HitableList,
    rec: HitRecord,
    j: int,
    t_min: Scalar,
    t_max: Scalar,
)
    requires
        list.hit_spec(Some(rec), t_min, t_max),
        0 <= j < list@.len(),
    ensures
        rec.t.inside(t_min, t_max),
        list@[j].hit_spec(t_min, t_max) matches Some(root) ==> rec.t.le_spec(list@[j].param(root)),
{
    assert(list.misses(j, t_min, rec.t));
}

} // verus!
