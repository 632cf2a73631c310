//! The decisions of the recursive radiance evaluation. The geometry and the
//! colors are computed by the caller; these functions say, from what that
//! computation found, whether a ray's path ends and how.
use vstd::prelude::*;

verus! {

/// The greatest number of bounces a path is followed for.
pub const MAX_DEPTH: u32 = 50;

/// What becomes of a ray once the scene has been tested for a hit.
#[derive(Clone, Copy, Debug, PartialEq, Eq, Structural)]
pub enum Step {
    /// Nothing was hit: the ray takes the color of the sky.
    Sky,
    /// A surface was hit but the path has reached its depth limit: black.
    Absorbed,
    /// A surface was hit within the depth limit: its material is asked to
    /// scatter the ray.
    Scatter,
}

/// The step for a ray at bounce `depth` whose hit test came out as `hit`.
pub open spec fn step_for(hit: bool, depth: nat, max_depth: nat) -> Step {
    if !hit {
        Step::Sky
    } else if depth < max_depth {
        Step::Scatter
    } else {
        Step::Absorbed
    }
}

/// A ray that hits nothing takes the sky's color at once, whatever its depth:
/// its material is never asked to scatter, so no further ray is traced.
pub proof fn lemma_miss_is_sky(depth: nat, max_depth: nat)
    ensures
        step_for(false, depth, max_depth) == Step::Sky,
{
}

/// The step for a ray at bounce `depth` whose hit test came out as `hit`.
pub fn after_hit_test(hit: bool, depth: u32, max_depth: u32) -> (step: Step)
    ensures
        step == step_for(hit, depth as nat, max_depth as nat),
{
    if !hit {
        Step::Sky
    } else if depth < max_depth {
        Step::Scatter
    } else {
        Step::Absorbed
    }
}

/// After a material was asked to scatter a ray at bounce `depth`: the depth of
/// the scattered ray, or `None` when the material absorbed the ray (its color
/// is then black).
pub fn after_scatter(scattered: bool, depth: u32, max_depth: u32) -> (next: Option<u32>)
    requires
        depth < max_depth,
    ensures
        scattered <==> next is Some,
        next matches Some(d) ==> d == depth + 1 && d <= max_depth,
{
    if scattered {
        Some(depth + 1)
    } else {
        None
    }
}

} // verus!
