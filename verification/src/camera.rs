//! The camera: position and look-at target, viewport dimensions, and the
//! projection matrix rebuilt whenever the viewport changes.

use vstd::prelude::*;
use crate::fixed::COORD_MAX;
use crate::fixed::FX_ABS_MAX;
use crate::fixed::FX_ONE;
use crate::fixed::div_trunc;
use crate::fixed::fx_div;
use crate::fixed::fx_wf;
use crate::fixed::imax;
use crate::fixed::imin;
use crate::fixed::lemma_div_trunc_bounds;
use crate::fixed::lemma_mul_bound;
use crate::fixed::Vec3;
use crate::fixed::vec3_bounded;
use crate::matrices::Mat4;
use crate::matrices::mat_wf;
use crate::matrices::mat4_perspective;
use crate::matrices::spec_perspective;

verus! {

/// Tangent of half the vertical field of view (half of sixty degrees).
pub const TAN_HALF_FOV: i64 = 5774;

/// The near depth plane, one tenth of a unit in front of the camera.
pub const NEAR_PLANE: i64 = 1000;

/// The far depth plane, a thousand units out.
pub const FAR_PLANE: i64 = 10_000_000;

/// Largest viewport side accepted, in pixels.
pub const VIEWPORT_MAX: i32 = 100_000;

/// A viewport is acceptable when both sides are positive, not absurdly
/// large, and within a hundredfold of each other, so the fixed-point
/// aspect ratio keeps enough precision.
pub open spec fn viewport_ok(width: i32, height: i32) -> bool {
    &&& 1 <= width <= VIEWPORT_MAX
    &&& 1 <= height <= VIEWPORT_MAX
    &&& width <= 100 * height
    &&& height <= 100 * width
}

/// The fixed-point aspect ratio of a viewport.
pub open spec fn spec_aspect(width: int, height: int) -> int {
    div_trunc(width * FX_ONE, height)
}

pub struct Camera {
    pub position: Vec3,
    pub target: Vec3,
    pub width: i32,
    pub height: i32,
    pub aspect_ratio: i64,
    pub projection: Mat4,
}

impl Camera {
    /// The camera's invariant: a sane viewport, the cached aspect ratio
    /// and projection agreeing with it, and bounded position and target.
    pub open spec fn wf(self) -> bool {
        &&& viewport_ok(self.width, self.height)
        &&& self.aspect_ratio as int == spec_aspect(self.width as int, self.height as int)
        &&& self.projection == spec_perspective(
            TAN_HALF_FOV as int,
            self.aspect_ratio as int,
            NEAR_PLANE as int,
            FAR_PLANE as int,
        )
        &&& vec3_bounded(self.position, FX_ABS_MAX as int)
        &&& vec3_bounded(self.target, COORD_MAX as int)
    }

    /// The aspect ratio lands in the range the projection accepts.
    proof fn lemma_aspect_range(width: i32, height: i32)
        requires
            viewport_ok(width, height),
        ensures
            100 <= spec_aspect(width as int, height as int) <= 1_000_000,
    {
        let a = spec_aspect(width as int, height as int);
        lemma_mul_bound(width as int, FX_ONE as int, VIEWPORT_MAX as int, FX_ONE as int);
        lemma_div_trunc_bounds(width as int * FX_ONE as int, height as int);
        assert(a * height as int <= width as int * FX_ONE as int) by (nonlinear_arith)
            requires
                a >= 0,
                a * height as int <= width as int * FX_ONE as int,
        ;
        assert(a <= 1_000_000) by (nonlinear_arith)
            requires
                a * height as int <= width as int * FX_ONE as int,
                width as int <= 100 * height as int,
                height as int >= 1,
                FX_ONE == 10000,
                a >= 0,
        ;
        assert(a >= 100) by (nonlinear_arith)
            requires
                (width as int * FX_ONE as int) < (a * height as int + height as int),
                height as int <= 100 * width as int,
                width as int >= 1,
                height as int >= 1,
                FX_ONE == 10000,
        ;
    }

    /// Computes the fixed-point aspect ratio of the viewport.
    fn aspect_of(width: i32, height: i32) -> (r: i64)
        requires
            viewport_ok(width, height),
        ensures
            r as int == spec_aspect(width as int, height as int),
            100 <= r <= 1_000_000,
    {
        proof {
            lemma_mul_bound(width as int, FX_ONE as int, VIEWPORT_MAX as int, FX_ONE as int);
            Camera::lemma_aspect_range(width, height);
        }
        fx_div((width as i64) * FX_ONE, height as i64)
    }

    /// A camera ten units back on the z axis, aimed at the origin, with
    /// the projection for the given viewport.
    pub fn new(width: i32, height: i32) -> (r: Camera)
        requires
            viewport_ok(width, height),
        ensures
            r.wf(),
            r.position == (Vec3 { x: 0, y: 0, z: 100_000i64 }),
            r.target == (Vec3 { x: 0, y: 0, z: 0 }),
            r.width == width,
            r.height == height,
    {
        let aspect_ratio: i64 = Camera::aspect_of(width, height);
        Camera {
            position: Vec3 { x: 0, y: 0, z: 10 * FX_ONE },
            target: Vec3 { x: 0, y: 0, z: 0 },
            width,
            height,
            aspect_ratio,
            projection: Camera::calculate_projection(aspect_ratio),
        }
    }

    /// The projection for a given fixed-point aspect ratio, with the
    /// library's fixed field of view and depth planes.
    fn calculate_projection(aspect_ratio: i64) -> (r: Mat4)
        requires
            100 <= aspect_ratio <= 1_000_000,
        ensures
            r == spec_perspective(
                TAN_HALF_FOV as int,
                aspect_ratio as int,
                NEAR_PLANE as int,
                FAR_PLANE as int,
            ),
            mat_wf(r),
    {
        mat4_perspective(TAN_HALF_FOV, aspect_ratio, NEAR_PLANE, FAR_PLANE)
    }

    /// A viewport change: record the new dimensions and rebuild the
    /// projection; position and target are untouched.
    pub fn update_resolution(&mut self, width: i32, height: i32)
        requires
            old(self).wf(),
            viewport_ok(width, height),
        ensures
            final(self).wf(),
            final(self).width == width,
            final(self).height == height,
            final(self).position == old(self).position,
            final(self).target == old(self).target,
            final(self).projection == spec_perspective(
                TAN_HALF_FOV as int,
                spec_aspect(width as int, height as int),
                NEAR_PLANE as int,
                FAR_PLANE as int,
            ),
    {
        self.width = width;
        self.height = height;
        self.aspect_ratio = Camera::aspect_of(width, height);
        self.projection = Camera::calculate_projection(self.aspect_ratio);
    }

    /// Aims the camera at a new point, typically the model's center.
    pub fn update_target(&mut self, model_center: Vec3)
        requires
            old(self).wf(),
            vec3_bounded(model_center, COORD_MAX as int),
        ensures
            final(self).wf(),
            final(self).target == model_center,
            final(self).position == old(self).position,
            final(self).width == old(self).width,
            final(self).height == old(self).height,
            final(self).projection == old(self).projection,
    {
        self.target = model_center;
    }

    /// Moves the camera along the z axis by `delta`, never closer than
    /// zero (the minimum distance) and never beyond the representable
    /// range.
    pub fn zoom(&mut self, delta: i64)
        requires
            old(self).wf(),
            fx_wf(delta),
        ensures
            final(self).wf(),
            final(self).position.z as int == imin(
                imax(old(self).position.z + delta, 0),
                FX_ABS_MAX as int,
            ),
            final(self).position.x == old(self).position.x,
            final(self).position.y == old(self).position.y,
            final(self).target == old(self).target,
            final(self).width == old(self).width,
            final(self).height == old(self).height,
            final(self).projection == old(self).projection,
    {
        let new_z: i64 = self.position.z + delta;
        let clamped: i64 = if new_z < 0 {
            0
        } else if new_z > FX_ABS_MAX {
            FX_ABS_MAX
        } else {
            new_z
        };
        self.position.z = clamped;
    }
}

} // verus!
