//! The control of a light path: what follows each meeting of a ray with
//! the scene, and the cap on the number of bounces.

use vstd::prelude::*;
use crate::scalar::{Scalar, INFINITY_BITS};

verus! {

/// The number of bounces after which a path is cut off unless told otherwise.
pub const MAX_DEPTH: u32 = 50;

/// Bit pattern of one thousandth, rounded to nearest: the lower end of the
/// interval in which crossings are looked for.
pub const EPSILON_BITS: u32 = 0x3a83_126f;

/// What a ray met in the scene.
#[derive(Clone, Copy, Debug, PartialEq, Eq, Structural)]
pub enum Surface {
    /// The ray left the scene without striking a member.
    Miss,
    /// The ray struck a member whose material swallowed it.
    Absorbed,
    /// The ray struck a member whose material sent it on.
    Scattered,
}

/// What the integrator does about it.
#[derive(Clone, Copy, Debug, PartialEq, Eq, Structural)]
pub enum Step {
    /// The path ends in the sky: its radiance is the background gradient.
    Sky,
    /// The path ends in black.
    Black,
    /// The path goes on with the scattered ray at the given depth; the
    /// radiance of that ray is multiplied by the attenuation.
    Bounce { depth: u32 },
}

/// What follows a meeting at `depth` under a cap of `max_depth` bounces.
pub open spec fn step_spec(max_depth: nat, depth: nat, met: Surface) -> Step {
    match met {
        Surface::Miss => Step::Sky,
        Surface::Absorbed => Step::Black,
        Surface::Scattered => if depth < max_depth {
            Step::Bounce { depth: (depth + 1) as u32 }
        } else {
            Step::Black
        },
    }
}

/// How a path that starts at `depth` and meets `met`, one surface after the
/// other, ends: `None` while it is still under way when `met` runs out.
pub open spec fn path_end(max_depth: nat, depth: nat, met: Seq<Surface>) -> Option<Step>
    decreases met.len(),
{
    if met.len() == 0 {
        None
    } else {
        match step_spec(max_depth, depth, met[0]) {
            Step::Bounce { .. } => path_end(max_depth, depth + 1, met.drop_first()),
            end => Some(end),
        }
    }
}

/// How many times a path that starts at `depth` and meets `met` bounces.
pub open spec fn path_bounces(max_depth: nat, depth: nat, met: Seq<Surface>) -> nat
    decreases met.len(),
{
    if met.len() == 0 {
        0
    } else {
        match step_spec(max_depth, depth, met[0]) {
            Step::Bounce { .. } => 1 + path_bounces(max_depth, depth + 1, met.drop_first()),
            _ => 0,
        }
    }
}

/// The recursive integrator's control, with its cap on the depth.
#[derive(Clone, Copy, Debug, PartialEq, Eq, Structural)]
pub struct Integrator {
    pub max_depth: u32,
}

impl Integrator {
    /// An integrator that cuts paths off after `max_depth` bounces.
    pub fn new(max_depth: u32) -> (g: Integrator)
        ensures
            g.max_depth == max_depth,
    {
        Integrator { max_depth }
    }

    /// The lower end of the interval in which crossings are looked for: a
    /// small positive number, so that a scattered ray does not strike the
    /// surface that it leaves.
    pub fn t_min() -> (t: Scalar)
        ensures
            t.bits == EPSILON_BITS,
            t.positive(),
    {
        Scalar::from_bits(EPSILON_BITS)
    }

    /// The upper end of that interval: positive infinity.
    pub fn t_max() -> (t: Scalar)
        ensures
            t.bits == INFINITY_BITS,
            forall|s: Scalar| s.lt_spec(t) <==> !s.nan() && s.bits != INFINITY_BITS,
    {
        Scalar::from_bits(INFINITY_BITS)
    }

    /// What follows when a ray at `depth` met `met`.
    ///
    /// A miss ends the path in the sky and an absorption in black. A
    /// scattered ray is followed one level deeper as long as `depth` is
    /// under the cap; at the cap the path ends in black.
    pub fn step(&self, depth: u32, met: Surface) -> (next: Step)
        ensures
            next == step_spec(self.max_depth as nat, depth as nat, met),
            next is Bounce ==> depth < self.max_depth && next->depth == depth + 1,
    {
        match met {
            Surface::Miss => Step::Sky,
            Surface::Absorbed => Step::Black,
            Surface::Scattered => {
                if depth < self.max_depth {
                    Step::Bounce { depth: depth + 1 }
                } else {
                    Step::Black
                }
            },
        }
    }
}

impl Default for Integrator {
    /// The integrator with the usual cap of `MAX_DEPTH` bounces.
    fn default() -> (g: Integrator)
        ensures
            g.max_depth == MAX_DEPTH,
    {
        Integrator { max_depth: MAX_DEPTH }
    }
}

/// No path bounces more often than the cap allows, whatever it meets.
pub proof fn lemma_path_bounded(max_depth: nat, depth: nat, met: Seq<Surface>)
    requires
        depth <= max_depth,
        max_depth <= u32::MAX,
    ensures
        path_bounces(max_depth, depth, met) <= max_depth - depth,
        path_bounces(max_depth, depth, met) <= met.len(),
    decreases met.len(),
{
    if met.len() > 0 && depth < max_depth {
        lemma_path_bounded(max_depth, depth + 1, met.drop_first());
    }
}

/// A path that has ended has met one surface more than it bounced; one
/// still under way has bounced off every surface.
pub proof fn lemma_path_end_count(max_depth: nat, depth: nat, met: Seq<Surface>)
    requires
        depth <= max_depth,
        max_depth <= u32::MAX,
    ensures
        path_end(max_depth, depth, met) is Some ==> path_bounces(max_depth, depth, met) < met.len(),
        path_end(max_depth, depth, met) is None ==> path_bounces(max_depth, depth, met)
            == met.len(),
        path_end(max_depth, depth, met) matches Some(end) ==> !(end is Bounce),
    decreases met.len(),
{
    if met.len() > 0 && depth < max_depth {
        lemma_path_end_count(max_depth, depth + 1, met.drop_first());
    }
}

/// A path between mirrors, where every surface scatters, still ends: after
/// as many bounces as the cap allows it ends in black.
pub proof fn lemma_mirror_path_ends_black(max_depth: nat, depth: nat, met: Seq<Surface>)
    requires
        depth <= max_depth,
        max_depth <= u32::MAX,
        met.len() > max_depth - depth,
        forall|k: int| 0 <= k < met.len() ==> met[k] == Surface::Scattered,
    ensures
        path_end(max_depth, depth, met) == Some(Step::Black),
        path_bounces(max_depth, depth, met) == max_depth - depth,
    decreases met.len(),
{
    if depth < max_depth {
        let rest = met.drop_first();
        assert forall|k: int| 0 <= k < rest.len() implies rest[k] == Surface::Scattered by {
            assert(rest[k] == met[k + 1]);
        }
        lemma_mirror_path_ends_black(max_depth, depth + 1, rest);
    }
}

} // verus!
