use whiteboard::engine::{Engine, Vertex};
use whiteboard::fixed::{norm_width_to_px, px_width_to_norm};

fn white_engine() -> Engine {
    Engine::new(1920, 1080)
}

#[test]
fn new_engine_has_reticle_only() {
    let e = white_engine();
    assert_eq!(e.reticle_vertex_count(), 32);
    assert_eq!(e.stroke_vertex_count(), 0);
    assert_eq!(e.undo_depth(), 0);
    assert_eq!(e.line_width(), 5);
    assert_eq!(e.width_modifier(), 1000);
    assert_eq!(e.current_color(), (1000, 1000, 1000));
    assert!(!e.needs_redraw());
    assert_eq!(e.vertex_buffer().len(), 32);
    for v in e.vertex_buffer() {
        assert_eq!((v.x, v.y, v.z), (0, 0, 0));
        assert_eq!((v.r, v.g, v.b), (1000, 1000, 1000));
    }
}

#[test]
fn first_move_after_down_emits_nothing() {
    let mut e = white_engine();
    e.pointer_down();
    assert_eq!(e.stroke_vertex_count(), 0);
    e.pointer_move(100, 100);
    assert_eq!(e.stroke_vertex_count(), 0);
    e.pointer_move(200, 100);
    assert_eq!(e.stroke_vertex_count(), 6);
    e.pointer_move(300, 120);
    assert_eq!(e.stroke_vertex_count(), 12);
    e.pointer_up();
    assert_eq!(e.stroke_vertex_count(), 12);
}

#[test]
fn single_segment_scenario_on_full_hd() {
    // Down, move to (0,0), move to (10,0), up, on 1920x1080 with the
    // default 5 px white pen: exactly one quad, all vertices white.
    let mut e = white_engine();
    e.pointer_down();
    e.pointer_move(0, 0);
    e.pointer_move(10, 0);
    e.pointer_up();
    assert_eq!(e.stroke_vertex_count(), 6);
    let buf = e.vertex_buffer();
    assert_eq!(buf.len(), 38);
    for v in &buf[32..] {
        assert_eq!((v.r, v.g, v.b), (1000, 1000, 1000));
        assert_eq!(v.z, 0);
    }
}

#[test]
fn single_segment_scenario_exact_geometry() {
    // Same scenario, checked against hand-computed fixed-point values.
    // a = ndc(0,0) = (-65536, 65536); b = ndc(10,0) = (-64853, 65536);
    // direction (683, 0); width 341; offset (0, 341).
    let mut e = white_engine();
    e.pointer_down();
    e.pointer_move(0, 0);
    e.pointer_move(10, 0);
    e.pointer_up();
    let buf = e.vertex_buffer();
    let q: Vec<(i64, i64)> = buf[32..].iter().map(|v| (v.x, v.y)).collect();
    let p1 = (-65536, 65536);
    let p2 = (-64853, 65536);
    let p3 = (-64853, 65877);
    let p4 = (-65536, 65877);
    assert_eq!(q, vec![p1, p2, p3, p1, p3, p4]);
}

#[test]
fn undo_restores_count_before_stroke() {
    let mut e = white_engine();
    e.pointer_down();
    e.pointer_move(10, 10);
    e.pointer_move(20, 10);
    e.pointer_move(30, 15);
    e.pointer_up();
    let before = e.stroke_vertex_count();
    assert_eq!(before, 12);
    e.pointer_down();
    e.pointer_move(40, 40);
    e.pointer_move(50, 40);
    e.pointer_up();
    assert_eq!(e.stroke_vertex_count(), 18);
    e.undo();
    assert_eq!(e.stroke_vertex_count(), before);
}

#[test]
fn two_strokes_undo_leaves_first_stroke_vertices() {
    let mut e = white_engine();
    e.pointer_down();
    e.pointer_move(0, 0);
    e.pointer_move(10, 0);
    e.pointer_up();
    let first: Vec<Vertex> = e.vertex_buffer()[32..].to_vec();
    assert_eq!(first.len(), 6);
    e.pointer_down();
    e.pointer_move(100, 100);
    e.pointer_move(200, 100);
    e.pointer_move(300, 100);
    e.pointer_up();
    assert_eq!(e.stroke_vertex_count(), 18);
    e.undo();
    assert_eq!(e.stroke_vertex_count(), 6);
    assert_eq!(&e.vertex_buffer()[32..], &first[..]);
}

#[test]
fn clear_empties_strokes_and_undo_stack() {
    let mut e = white_engine();
    for _ in 0..3 {
        e.pointer_down();
        e.pointer_move(10, 10);
        e.pointer_move(20, 20);
        e.pointer_up();
    }
    assert_eq!(e.undo_depth(), 3);
    assert!(e.stroke_vertex_count() > 0);
    e.clear();
    assert_eq!(e.stroke_vertex_count(), 0);
    assert_eq!(e.undo_depth(), 0);
    assert_eq!(e.vertex_buffer().len(), 32);
    // Undo after clear must do nothing at all.
    e.undo();
    assert_eq!(e.stroke_vertex_count(), 0);
    assert_eq!(e.undo_depth(), 0);
}

#[test]
fn undo_on_empty_stack_is_noop() {
    let mut e = white_engine();
    e.pointer_move(500, 500);
    e.clear_redraw();
    let before: Vec<Vertex> = e.vertex_buffer().clone();
    e.undo();
    assert_eq!(e.vertex_buffer(), &before);
    assert_eq!(e.stroke_vertex_count(), 0);
    assert_eq!(e.undo_depth(), 0);
    assert!(!e.needs_redraw());
    assert_eq!(e.line_width(), 5);
}

#[test]
fn reticle_always_32_and_tracks_cursor() {
    let mut e = white_engine();
    e.pointer_move(960, 540);
    assert_eq!(e.reticle_vertex_count(), 32);
    // Cursor at the exact center is the fixed-point origin; the default
    // 5 px width is 341 horizontal and 606 vertical fixed-point steps.
    let buf = e.vertex_buffer();
    assert_eq!((buf[0].x, buf[0].y), (341, 0));
    assert_eq!((buf[8].x, buf[8].y), (0, 606));
    assert_eq!((buf[16].x, buf[16].y), (-341, 0));
    assert_eq!((buf[24].x, buf[24].y), (0, -606));
    // Stroke activity never changes the reticle region size.
    e.pointer_down();
    e.pointer_move(100, 100);
    e.pointer_move(200, 100);
    e.pointer_up();
    assert_eq!(e.reticle_vertex_count(), 32);
    // The next sample recenters the reticle on it.
    e.pointer_move(960, 540);
    let buf = e.vertex_buffer();
    assert_eq!((buf[0].x, buf[0].y), (341, 0));
}

#[test]
fn width_round_trip_is_exact() {
    for w in [320i64, 1079, 1080, 1920, 3840, 65536] {
        for px in 0..=30i64 {
            let norm = px_width_to_norm(px, w);
            assert_eq!(norm_width_to_px(norm, w), px);
        }
    }
    assert_eq!(px_width_to_norm(5, 1920), 341);
    assert_eq!(norm_width_to_px(341, 1920), 5);
}

#[test]
fn adjust_width_clamps_to_1_and_30() {
    let mut e = white_engine();
    e.adjust_width(-100);
    assert_eq!(e.line_width(), 1);
    e.adjust_width(100);
    assert_eq!(e.line_width(), 30);
    e.adjust_width(-5);
    assert_eq!(e.line_width(), 25);
    e.adjust_width(3);
    assert_eq!(e.line_width(), 28);
}

#[test]
fn select_width_and_color_apply_to_new_strokes() {
    let mut e = white_engine();
    e.select_width(10);
    assert_eq!(e.line_width(), 10);
    e.select_color(1000, 580, 0);
    assert_eq!(e.current_color(), (1000, 580, 0));
    e.pointer_down();
    e.pointer_move(10, 10);
    e.pointer_move(20, 10);
    e.pointer_up();
    for v in &e.vertex_buffer()[32..] {
        assert_eq!((v.r, v.g, v.b), (1000, 580, 0));
    }
    // The reticle previews the color too.
    assert_eq!(
        (e.vertex_buffer()[0].r, e.vertex_buffer()[0].g, e.vertex_buffer()[0].b),
        (1000, 580, 0)
    );
}

#[test]
fn pressure_sample_clamps_and_scales_width() {
    let mut e = white_engine();
    e.pressure_sample(500);
    assert_eq!(e.width_modifier(), 500);
    e.pressure_sample(5000);
    assert_eq!(e.width_modifier(), 1000);
    e.pressure_sample(-3);
    assert_eq!(e.width_modifier(), 0);
    // Half pressure halves the reticle radius of the default 5 px pen.
    e.pressure_sample(500);
    e.pointer_move(960, 540);
    let buf = e.vertex_buffer();
    // 2.5 px on 1920: round(2500 * 131072 / 1920000) = 171.
    assert_eq!(buf[0].x, 171);
}

#[test]
fn repeated_pointer_down_pushes_one_snapshot() {
    let mut e = white_engine();
    e.pointer_down();
    e.pointer_down();
    assert_eq!(e.undo_depth(), 1);
    e.pointer_move(10, 10);
    e.pointer_move(20, 10);
    e.pointer_up();
    e.undo();
    assert_eq!(e.stroke_vertex_count(), 0);
    assert_eq!(e.undo_depth(), 0);
}

#[test]
fn undo_while_drawing_forces_idle() {
    let mut e = white_engine();
    e.pointer_down();
    e.pointer_move(10, 10);
    e.pointer_move(20, 10);
    e.undo();
    assert_eq!(e.stroke_vertex_count(), 0);
    // The pen was forced idle: further samples draw nothing.
    e.pointer_move(30, 10);
    e.pointer_move(40, 10);
    assert_eq!(e.stroke_vertex_count(), 0);
}

#[test]
fn moves_without_down_draw_nothing() {
    let mut e = white_engine();
    e.pointer_move(10, 10);
    e.pointer_move(600, 600);
    e.pointer_move(1900, 1000);
    assert_eq!(e.stroke_vertex_count(), 0);
    assert_eq!(e.undo_depth(), 0);
}

#[test]
fn needs_redraw_set_by_events_and_consumed() {
    let mut e = white_engine();
    assert!(!e.needs_redraw());
    e.pointer_move(10, 10);
    assert!(e.needs_redraw());
    e.clear_redraw();
    assert!(!e.needs_redraw());
    e.select_width(3);
    assert!(e.needs_redraw());
    e.clear_redraw();
    e.pointer_down();
    assert!(e.needs_redraw());
    e.clear_redraw();
    e.pointer_up();
    assert!(e.needs_redraw());
}

#[test]
fn stroke_region_is_whole_quads() {
    let mut e = white_engine();
    e.pointer_down();
    for i in 0..10i64 {
        e.pointer_move(10 * i, 5 * i);
    }
    e.pointer_up();
    assert_eq!(e.stroke_vertex_count() % 6, 0);
    assert_eq!(e.stroke_vertex_count(), 9 * 6);
}

#[test]
fn extreme_viewports_stay_consistent() {
    // Smallest viewport: one pixel each way.
    let mut e = Engine::new(1, 1);
    e.pointer_down();
    e.pointer_move(0, 0);
    e.pointer_move(1, 1);
    e.pointer_up();
    assert_eq!(e.stroke_vertex_count(), 6);
    assert_eq!(e.reticle_vertex_count(), 32);
    // Widest supported viewport.
    let mut e = Engine::new(65536, 65536);
    e.select_width(30);
    e.pointer_down();
    e.pointer_move(0, 0);
    e.pointer_move(65536, 65536);
    e.pointer_up();
    assert_eq!(e.stroke_vertex_count(), 6);
}

#[test]
fn zero_length_segment_gets_vertical_offset() {
    // Two samples at the same point: the offset falls back to (0, w).
    let mut e = white_engine();
    e.pointer_down();
    e.pointer_move(960, 540);
    e.pointer_move(960, 540);
    e.pointer_up();
    let buf = e.vertex_buffer();
    assert_eq!(e.stroke_vertex_count(), 6);
    // p1 = p2 = origin, p3 = p4 = (0, 341).
    assert_eq!((buf[32].x, buf[32].y), (0, 0));
    assert_eq!((buf[33].x, buf[33].y), (0, 0));
    assert_eq!((buf[34].x, buf[34].y), (0, 341));
    assert_eq!((buf[37].x, buf[37].y), (0, 341));
}
