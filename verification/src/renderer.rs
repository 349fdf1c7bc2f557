//! The render-mode state machine: a closed cycle of three visualization
//! modes, advanced one step per trigger, with a texture-blend scalar that
//! is linearly interpolated over the active transition and pinned at the
//! mode's resting value otherwise.

use vstd::prelude::*;
use crate::fixed::FX_ONE;
use crate::fixed::FX_ABS_MAX;
use crate::fixed::div_trunc;
use crate::fixed::iabs;
use crate::fixed::imin;
use crate::fixed::imax;
use crate::fixed::fx_div;
use crate::fixed::lemma_div_trunc_bounds;
use crate::fixed::lemma_mul_bound;

verus! {

/// The visualization mode: line rasterization of the mesh edges, filled
/// flat shading, or filled shading with full texture weight.
#[derive(Clone, Copy, PartialEq, Eq, Structural, Debug)]
pub enum RenderMode {
    Vertex,
    Face,
    Texture,
}

/// Resting blend of the flat-shaded mode: half of one fixed-point unit.
pub const BLEND_HALF: i64 = 5000;

/// Progress gained per second of wall time during a transition, as a
/// multiple of whole transitions.
pub const TRANSITION_SPEED: i64 = 3;

/// The cyclic successor: the mode one "advance" trigger ahead.
pub open spec fn spec_successor(m: RenderMode) -> RenderMode {
    match m {
        RenderMode::Vertex => RenderMode::Face,
        RenderMode::Face => RenderMode::Texture,
        RenderMode::Texture => RenderMode::Vertex,
    }
}

/// The blend value a mode rests at outside any transition: no texture
/// weight on lines, half on flat shading, full weight on textured.
pub open spec fn spec_resting_blend(m: RenderMode) -> int {
    match m {
        RenderMode::Vertex => 0,
        RenderMode::Face => BLEND_HALF as int,
        RenderMode::Texture => FX_ONE as int,
    }
}

/// Linear interpolation from `start` to `end` at parameter `t` (one
/// fixed-point unit means all the way), truncating toward zero.
pub open spec fn spec_lerp(start: int, end: int, t: int) -> int {
    start + div_trunc((end - start) * t, FX_ONE as int)
}

/// Interpolation never leaves the closed range spanned by its endpoints.
pub proof fn lemma_blend_within(v0: int, v1: int, t: int)
    requires
        0 <= t <= FX_ONE as int,
    ensures
        imin(v0, v1) <= spec_lerp(v0, v1, t) <= imax(v0, v1),
{
    let d = v1 - v0;
    let q = div_trunc(d * t, FX_ONE as int);
    lemma_div_trunc_bounds(d * t, FX_ONE as int);
    if d >= 0 {
        assert(0 <= d * t <= d * FX_ONE as int) by (nonlinear_arith)
            requires
                d >= 0,
                0 <= t <= FX_ONE as int,
        ;
        assert(q <= d) by (nonlinear_arith)
            requires
                q * FX_ONE as int <= d * t,
                d * t <= d * FX_ONE as int,
                FX_ONE as int > 0,
        ;
    } else {
        assert(d * FX_ONE as int <= d * t <= 0) by (nonlinear_arith)
            requires
                d < 0,
                0 <= t <= FX_ONE as int,
        ;
        assert(iabs(q) <= iabs(d)) by (nonlinear_arith)
            requires
                iabs(q) * FX_ONE as int <= iabs(d * t),
                iabs(d * t) <= iabs(d) * FX_ONE as int,
                FX_ONE as int > 0,
                iabs(q) >= 0,
        ;
        assert(iabs(d * t) <= iabs(d) * FX_ONE as int) by (nonlinear_arith)
            requires
                d * FX_ONE as int <= d * t <= 0,
        ;
    }
}

/// At full progress the interpolation reaches `end` exactly.
pub proof fn lemma_lerp_complete(v0: int, v1: int)
    ensures
        spec_lerp(v0, v1, FX_ONE as int) == v1,
        spec_lerp(v0, v1, 0) == v0,
{
    let d = v1 - v0;
    if d >= 0 {
        vstd::arithmetic::div_mod::lemma_div_multiples_vanish(d, FX_ONE as int);
    } else {
        vstd::arithmetic::div_mod::lemma_div_multiples_vanish(-d, FX_ONE as int);
        assert(-(d * FX_ONE as int) == (-d) * FX_ONE as int) by (nonlinear_arith);
    }
}

/// Interpolation from `start` to `end`, truncating toward zero; `t` runs
/// from zero to one fixed-point unit.
pub fn lerp(start: i64, end: i64, t: i64) -> (r: i64)
    requires
        iabs(start as int) <= FX_ABS_MAX as int,
        iabs(end as int) <= FX_ABS_MAX as int,
        0 <= t <= FX_ONE,
    ensures
        r as int == spec_lerp(start as int, end as int, t as int),
        imin(start as int, end as int) <= r as int <= imax(start as int, end as int),
{
    proof {
        lemma_mul_bound(end - start, t as int, 2 * FX_ABS_MAX as int, FX_ONE as int);
        lemma_blend_within(start as int, end as int, t as int);
    }
    start + fx_div((end - start) * t, FX_ONE)
}

/// The render-mode state machine. `current_mode` drives rasterization
/// fill; `texture_blend` is the interpolated texture weight; a trigger
/// aims `target_mode` one step ahead and restarts `transition_progress`.
pub struct ModeState {
    pub current_mode: RenderMode,
    pub target_mode: RenderMode,
    pub transition_progress: i64,
    pub texture_blend: i64,
}

impl ModeState {
    /// The machine's invariant: progress stays in the unit interval, the
    /// target is the current mode or its immediate successor (a trigger
    /// never skips a mode), the blend stays within the span of the two
    /// resting values, and it is pinned at the resting value when no
    /// transition is active.
    pub open spec fn wf(self) -> bool {
        &&& 0 <= self.transition_progress <= FX_ONE
        &&& (self.target_mode == self.current_mode || self.target_mode == spec_successor(
            self.current_mode,
        ))
        &&& imin(
            spec_resting_blend(self.current_mode),
            spec_resting_blend(self.target_mode),
        ) <= self.texture_blend as int <= imax(
            spec_resting_blend(self.current_mode),
            spec_resting_blend(self.target_mode),
        )
        &&& self.current_mode == self.target_mode ==> self.texture_blend as int
            == spec_resting_blend(self.current_mode)
    }

    /// A fresh machine rests in line mode with no texture weight.
    pub fn new() -> (r: ModeState)
        ensures
            r.wf(),
            r.current_mode == RenderMode::Vertex,
            r.target_mode == RenderMode::Vertex,
            r.transition_progress == 0,
            r.texture_blend == 0,
    {
        ModeState {
            current_mode: RenderMode::Vertex,
            target_mode: RenderMode::Vertex,
            transition_progress: 0,
            texture_blend: 0,
        }
    }

    /// One "advance" trigger: aim at the successor of the mode showing now
    /// and restart the transition. The showing mode and the blend are
    /// untouched, so a burst of triggers still walks one step at a time.
    pub fn cycle_render_mode(&mut self)
        requires
            old(self).wf(),
        ensures
            final(self).wf(),
            final(self).current_mode == old(self).current_mode,
            final(self).target_mode == spec_successor(old(self).current_mode),
            final(self).transition_progress == 0,
            final(self).texture_blend == old(self).texture_blend,
    {
        self.target_mode = match self.current_mode {
            RenderMode::Vertex => RenderMode::Face,
            RenderMode::Face => RenderMode::Texture,
            RenderMode::Texture => RenderMode::Vertex,
        };
        self.transition_progress = 0;
    }

    /// One frame of wall time: progress advances by the elapsed seconds
    /// times the transition speed (clamped to one whole transition), the
    /// blend is re-interpolated between the two resting values, and a
    /// transition that has just filled up makes the target current.
    pub fn update(&mut self, delta_time: i64)
        requires
            old(self).wf(),
            0 <= delta_time <= FX_ABS_MAX,
        ensures
            final(self).wf(),
            final(self).target_mode == old(self).target_mode,
            final(self).transition_progress as int == imin(
                old(self).transition_progress + TRANSITION_SPEED * delta_time,
                FX_ONE as int,
            ),
            final(self).current_mode == (if final(self).transition_progress == FX_ONE {
                old(self).target_mode
            } else {
                old(self).current_mode
            }),
            old(self).current_mode != old(self).target_mode ==> final(self).texture_blend as int
                == spec_lerp(
                spec_resting_blend(old(self).current_mode),
                spec_resting_blend(old(self).target_mode),
                final(self).transition_progress as int,
            ),
            old(self).current_mode == old(self).target_mode ==> final(self).texture_blend == old(
                self,
            ).texture_blend,
            imin(
                spec_resting_blend(old(self).current_mode),
                spec_resting_blend(old(self).target_mode),
            ) <= final(self).texture_blend as int <= imax(
                spec_resting_blend(old(self).current_mode),
                spec_resting_blend(old(self).target_mode),
            ),
    {
        let gained: i64 = TRANSITION_SPEED * delta_time;
        let p: i64 = if self.transition_progress <= FX_ONE - gained {
            self.transition_progress + gained
        } else {
            FX_ONE
        };
        self.transition_progress = p;
        match (self.current_mode, self.target_mode) {
            (RenderMode::Vertex, RenderMode::Face) => {
                self.texture_blend = lerp(0, BLEND_HALF, p);
            },
            (RenderMode::Face, RenderMode::Texture) => {
                self.texture_blend = lerp(BLEND_HALF, FX_ONE, p);
            },
            (RenderMode::Texture, RenderMode::Vertex) => {
                self.texture_blend = lerp(FX_ONE, 0, p);
            },
            _ => {},
        }
        if p >= FX_ONE {
            proof {
                if old(self).current_mode != old(self).target_mode {
                    lemma_lerp_complete(
                        spec_resting_blend(old(self).current_mode),
                        spec_resting_blend(old(self).target_mode),
                    );
                }
            }
            self.current_mode = self.target_mode;
        }
    }

    /// Whether polygons are rasterized filled; line mode alone draws
    /// edges. Driven by the mode showing now, never by the blend.
    pub fn fills_polygons(&self) -> (r: bool)
        ensures
            r == (self.current_mode != RenderMode::Vertex),
    {
        match self.current_mode {
            RenderMode::Vertex => false,
            RenderMode::Face => true,
            RenderMode::Texture => true,
        }
    }
}

/// The advance cycle is closed and total: three successor steps lead from
/// any mode back to itself, so three completed triggers starting at line
/// mode show line mode again.
pub proof fn lemma_cycle_closed(m: RenderMode)
    ensures
        spec_successor(spec_successor(spec_successor(m))) == m,
        spec_successor(m) != m,
{
}

} // verus!
