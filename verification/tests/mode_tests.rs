use scop::renderer::{lerp, ModeState, RenderMode, BLEND_HALF};
use scop::fixed::FX_ONE;

#[test]
fn a_fresh_machine_rests_in_line_mode() {
    let m = ModeState::new();
    assert_eq!(m.current_mode, RenderMode::Vertex);
    assert_eq!(m.target_mode, RenderMode::Vertex);
    assert_eq!(m.texture_blend, 0);
    assert!(!m.fills_polygons());
}

#[test]
fn three_completed_advances_return_to_line_mode() {
    let mut m = ModeState::new();
    // 0.4 s at speed 3 fills a whole transition
    m.cycle_render_mode();
    m.update(4000);
    assert_eq!(m.current_mode, RenderMode::Face);
    assert_eq!(m.texture_blend, BLEND_HALF);
    m.cycle_render_mode();
    m.update(4000);
    assert_eq!(m.current_mode, RenderMode::Texture);
    assert_eq!(m.texture_blend, FX_ONE);
    m.cycle_render_mode();
    m.update(4000);
    assert_eq!(m.current_mode, RenderMode::Vertex);
    assert_eq!(m.texture_blend, 0);
}

#[test]
fn a_partial_transition_interpolates_and_keeps_the_old_fill() {
    let mut m = ModeState::new();
    m.cycle_render_mode();
    // 0.1 s: progress 0.3, blend 30% of the way to one half
    m.update(1000);
    assert_eq!(m.transition_progress, 3000);
    assert_eq!(m.texture_blend, 1500);
    assert_eq!(m.current_mode, RenderMode::Vertex);
    assert!(!m.fills_polygons());
    // two more frames complete it
    m.update(1000);
    m.update(2000);
    assert_eq!(m.current_mode, RenderMode::Face);
    assert_eq!(m.texture_blend, BLEND_HALF);
    assert!(m.fills_polygons());
}

#[test]
fn a_trigger_mid_transition_keeps_aiming_at_the_same_successor() {
    let mut m = ModeState::new();
    m.cycle_render_mode();
    m.update(1000);
    m.cycle_render_mode();
    assert_eq!(m.current_mode, RenderMode::Vertex);
    assert_eq!(m.target_mode, RenderMode::Face);
    assert_eq!(m.transition_progress, 0);
    m.update(4000);
    assert_eq!(m.current_mode, RenderMode::Face);
}

#[test]
fn blend_stays_between_the_endpoint_values() {
    let mut m = ModeState::new();
    m.cycle_render_mode();
    let mut low = i64::MAX;
    let mut high = i64::MIN;
    for _ in 0..20 {
        m.update(250);
        low = low.min(m.texture_blend);
        high = high.max(m.texture_blend);
    }
    assert!(low >= 0 && high <= BLEND_HALF);
}

#[test]
fn textured_back_to_line_mode_descends_through_the_span() {
    let mut m = ModeState::new();
    m.cycle_render_mode();
    m.update(4000);
    m.cycle_render_mode();
    m.update(4000);
    assert_eq!(m.current_mode, RenderMode::Texture);
    m.cycle_render_mode();
    m.update(1000);
    // lerp from one toward zero at progress 0.3
    assert_eq!(m.texture_blend, 7000);
    assert!(m.texture_blend <= FX_ONE && m.texture_blend >= 0);
}

#[test]
fn lerp_hits_its_endpoints_and_midpoint() {
    assert_eq!(lerp(0, BLEND_HALF, 0), 0);
    assert_eq!(lerp(0, BLEND_HALF, FX_ONE), BLEND_HALF);
    assert_eq!(lerp(0, BLEND_HALF, 5000), 2500);
    assert_eq!(lerp(FX_ONE, 0, 2500), 7500);
}
