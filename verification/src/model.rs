//! Per-model scene state: the two Euler rotation angles, the translation
//! offset, and the bounding-box center of a vertex cloud.

use vstd::prelude::*;
use crate::fixed::COORD_MAX;
use crate::fixed::div_trunc;
use crate::fixed::fx_add_clamped;
use crate::fixed::fx_div;
use crate::fixed::fx_wf;
use crate::fixed::imax;
use crate::fixed::imin;
use crate::fixed::spec_clamp;
use crate::fixed::Vec3;
use crate::fixed::vec3_bounded;

verus! {

/// The model's orientation: fixed-point radian angles about the x and y
/// axes, nudged by discrete input events.
pub struct ModelRotation {
    pub x_angle: i64,
    pub y_angle: i64,
}

/// The model's translation offset in world space.
pub struct ModelPosition {
    pub x: i64,
    pub y: i64,
    pub z: i64,
}

impl ModelRotation {
    pub open spec fn wf(self) -> bool {
        fx_wf(self.x_angle) && fx_wf(self.y_angle)
    }

    /// A model starts unrotated.
    pub fn new() -> (r: ModelRotation)
        ensures
            r.wf(),
            r.x_angle == 0,
            r.y_angle == 0,
    {
        ModelRotation { x_angle: 0, y_angle: 0 }
    }

    /// One rotation input event: each angle moves by its delta, clamped
    /// into the well-formed scalar range (the angles only ever feed
    /// periodic functions, so the clamp is unobservable long before it
    /// could bite).
    pub fn rotate_by(&mut self, dx: i64, dy: i64)
        requires
            old(self).wf(),
            fx_wf(dx),
            fx_wf(dy),
        ensures
            final(self).wf(),
            final(self).x_angle as int == spec_clamp(old(self).x_angle + dx),
            final(self).y_angle as int == spec_clamp(old(self).y_angle + dy),
    {
        self.x_angle = fx_add_clamped(self.x_angle, dx);
        self.y_angle = fx_add_clamped(self.y_angle, dy);
    }
}

impl ModelPosition {
    pub open spec fn wf(self) -> bool {
        fx_wf(self.x) && fx_wf(self.y) && fx_wf(self.z)
    }

    /// A model starts at the origin.
    pub fn new() -> (r: ModelPosition)
        ensures
            r.wf(),
            r.x == 0,
            r.y == 0,
            r.z == 0,
    {
        ModelPosition { x: 0, y: 0, z: 0 }
    }

    /// One translation input event, clamped like the rotation nudges.
    pub fn translate_by(&mut self, dx: i64, dy: i64)
        requires
            old(self).wf(),
            fx_wf(dx),
            fx_wf(dy),
        ensures
            final(self).wf(),
            final(self).x as int == spec_clamp(old(self).x + dx),
            final(self).y as int == spec_clamp(old(self).y + dy),
            final(self).z == old(self).z,
    {
        self.x = fx_add_clamped(self.x, dx);
        self.y = fx_add_clamped(self.y, dy);
    }
}

/// Componentwise minimum of a non-empty vertex cloud.
pub open spec fn spec_mins(s: Seq<Vec3>) -> (int, int, int)
    recommends
        s.len() >= 1,
    decreases s.len(),
{
    if s.len() <= 1 {
        (s[0].x as int, s[0].y as int, s[0].z as int)
    } else {
        let m = spec_mins(s.drop_last());
        (
            imin(m.0, s.last().x as int),
            imin(m.1, s.last().y as int),
            imin(m.2, s.last().z as int),
        )
    }
}

/// Componentwise maximum of a non-empty vertex cloud.
pub open spec fn spec_maxs(s: Seq<Vec3>) -> (int, int, int)
    recommends
        s.len() >= 1,
    decreases s.len(),
{
    if s.len() <= 1 {
        (s[0].x as int, s[0].y as int, s[0].z as int)
    } else {
        let m = spec_maxs(s.drop_last());
        (
            imax(m.0, s.last().x as int),
            imax(m.1, s.last().y as int),
            imax(m.2, s.last().z as int),
        )
    }
}

/// The center of the cloud's axis-aligned bounding box: the componentwise
/// midpoint of the extremes, truncated toward zero.
pub fn calculate_model_center(vertices: &Vec<Vec3>) -> (r: Vec3)
    requires
        vertices@.len() >= 1,
        forall|i: int| 0 <= i < vertices@.len() ==> vec3_bounded(#[trigger] vertices@[i], COORD_MAX as int),
    ensures
        r.x as int == div_trunc(spec_mins(vertices@).0 + spec_maxs(vertices@).0, 2),
        r.y as int == div_trunc(spec_mins(vertices@).1 + spec_maxs(vertices@).1, 2),
        r.z as int == div_trunc(spec_mins(vertices@).2 + spec_maxs(vertices@).2, 2),
        vec3_bounded(r, COORD_MAX as int),
{
    let first: Vec3 = vertices[0];
    let mut mn: Vec3 = first;
    let mut mx: Vec3 = first;
    let n: usize = vertices.len();
    let mut i: usize = 1;
    while i < n
        invariant
            1 <= i <= n,
            n == vertices@.len(),
            forall|j: int| 0 <= j < n ==> vec3_bounded(#[trigger] vertices@[j], COORD_MAX as int),
            (mn.x as int, mn.y as int, mn.z as int) == spec_mins(vertices@.take(i as int)),
            (mx.x as int, mx.y as int, mx.z as int) == spec_maxs(vertices@.take(i as int)),
            vec3_bounded(mn, COORD_MAX as int),
            vec3_bounded(mx, COORD_MAX as int),
        decreases n - i,
    {
        let v: Vec3 = vertices[i];
        if v.x < mn.x {
            mn.x = v.x;
        }
        if v.y < mn.y {
            mn.y = v.y;
        }
        if v.z < mn.z {
            mn.z = v.z;
        }
        if v.x > mx.x {
            mx.x = v.x;
        }
        if v.y > mx.y {
            mx.y = v.y;
        }
        if v.z > mx.z {
            mx.z = v.z;
        }
        proof {
            assert(vertices@.take(i as int + 1).drop_last() =~= vertices@.take(i as int));
            assert(vertices@.take(i as int + 1).last() == vertices@[i as int]);
        }
        i = i + 1;
    }
    proof {
        assert(vertices@.take(n as int) =~= vertices@);
        crate::fixed::lemma_div_trunc_bounds(mn.x + mx.x, 2);
        crate::fixed::lemma_div_trunc_bounds(mn.y + mx.y, 2);
        crate::fixed::lemma_div_trunc_bounds(mn.z + mx.z, 2);
    }
    Vec3 {
        x: fx_div(mn.x + mx.x, 2),
        y: fx_div(mn.y + mx.y, 2),
        z: fx_div(mn.z + mx.z, 2),
    }
}

} // verus!
