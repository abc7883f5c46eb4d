use rustique::{PaintApp, Rgba, Tool, CanvasChange};

fn red() -> Rgba {
    Rgba::new(255, 0, 0, 255)
}

fn shade(i: u8) -> Rgba {
    Rgba::new(i, 10, 20, 255)
}

#[test]
fn round_stamp_undo_redo_scenario() {
    let mut app = PaintApp::new(10, 10);
    assert_eq!(app.current_state.layers.len(), 1);
    assert_eq!(app.current_state.layers[0].name, "Background");
    app.set_brush_size(1);
    app.draw_point_with_color(5, 5, Some(red()));
    assert_eq!(app.current_state.get(5, 5), Some(red()));
    app.commit_stroke();
    app.undo();
    assert_eq!(app.current_state.get(5, 5), None);
    app.redo();
    assert_eq!(app.current_state.get(5, 5), Some(red()));
}

#[test]
fn round_stamp_covers_disc_of_radius() {
    let mut app = PaintApp::new(10, 10);
    app.set_brush_size(1);
    app.draw_point_with_color(5, 5, Some(red()));
    let mut painted = 0;
    for y in 0..10 {
        for x in 0..10 {
            if app.current_state.get(x, y).is_some() {
                painted += 1;
            }
        }
    }
    assert_eq!(painted, 5);
    assert_eq!(app.current_state.get(4, 5), Some(red()));
    assert_eq!(app.current_state.get(5, 6), Some(red()));
    assert_eq!(app.current_state.get(4, 4), None);
    assert_eq!(app.current_changes.len(), 5);
}

#[test]
fn stamp_clipped_at_canvas_edge() {
    let mut app = PaintApp::new(4, 4);
    app.set_brush_size(2);
    app.draw_point_with_color(0, 0, Some(red()));
    // offsets with dx, dy >= 0 and dx*dx + dy*dy <= 4
    assert_eq!(app.current_changes.len(), 6);
    assert_eq!(app.current_state.get(2, 0), Some(red()));
    assert_eq!(app.current_state.get(2, 1), None);
}

#[test]
fn eraser_clears_pixels() {
    let mut app = PaintApp::new(6, 6);
    app.set_brush_size(1);
    app.draw_point(3, 3, false);
    assert_eq!(app.current_state.get(3, 3), Some(Rgba::black()));
    app.set_active_tool(Tool::Eraser);
    app.set_eraser_size(1);
    app.draw_point(3, 3, false);
    assert_eq!(app.current_state.get(3, 3), None);
}

#[test]
fn record_same_color_is_noop() {
    let mut app = PaintApp::new(3, 3);
    app.record_change(1, 1, None);
    assert!(app.current_changes.is_empty());
    assert!(!app.has_unsaved_changes);
    app.record_change(1, 1, Some(red()));
    app.record_change(1, 1, Some(red()));
    assert_eq!(app.current_changes.len(), 1);
    app.commit_stroke();
    let undo_before = app.undo_stack.len();
    app.record_change(1, 1, Some(red()));
    assert!(app.current_changes.is_empty());
    app.commit_stroke();
    assert_eq!(app.undo_stack.len(), undo_before);
}

#[test]
fn record_outside_canvas_is_ignored() {
    let mut app = PaintApp::new(3, 3);
    app.record_change(3, 0, Some(red()));
    app.record_change(0, 7, Some(red()));
    assert!(app.current_changes.is_empty());
}

#[test]
fn record_change_logs_old_and_new() {
    let mut app = PaintApp::new(3, 3);
    app.record_change(2, 1, Some(red()));
    assert_eq!(
        app.current_changes[0],
        CanvasChange { x: 2, y: 1, layer_index: 0, old_color: None, new_color: Some(red()) }
    );
    assert_eq!(app.current_state.get_from_active_layer(2, 1), Some(red()));
}

#[test]
fn bounded_history_keeps_twenty_newest() {
    let mut app = PaintApp::new(30, 1);
    for i in 0..25u8 {
        app.record_change(i as usize, 0, Some(shade(i)));
        app.commit_stroke();
    }
    assert_eq!(app.undo_stack.len(), 20);
    for (k, stroke) in app.undo_stack.iter().enumerate() {
        assert_eq!(stroke.len(), 1);
        assert_eq!(stroke[0].x, k + 5);
    }
    assert!(app.redo_stack.is_empty());
}

#[test]
fn undo_redo_inverse_on_several_strokes() {
    let mut app = PaintApp::new(4, 4);
    let writes = [(0usize, 0usize, shade(1)), (1, 2, shade(2)), (0, 0, shade(3)), (3, 3, shade(4))];
    for (x, y, c) in writes {
        app.record_change(x, y, Some(c));
        app.commit_stroke();
    }
    let after: Vec<_> = app.current_state.layers[0].data.clone();
    for _ in 0..4 {
        app.undo();
    }
    assert!(app.current_state.layers[0].data.iter().all(|c| c.is_none()));
    for _ in 0..4 {
        app.redo();
    }
    assert_eq!(app.current_state.layers[0].data, after);
    assert_eq!(app.undo_stack.len(), 4);
    assert!(app.redo_stack.is_empty());
}

#[test]
fn undo_targets_the_recorded_layer() {
    let mut app = PaintApp::new(2, 2);
    app.record_change(0, 0, Some(red()));
    app.commit_stroke();
    app.add_layer("Top".to_string());
    assert_eq!(app.current_state.active_layer_index, 1);
    app.undo();
    assert_eq!(app.current_state.layers[0].data[0], None);
    assert_eq!(app.current_state.active_layer_index, 1);
    app.redo();
    assert_eq!(app.current_state.layers[0].data[0], Some(red()));
    assert_eq!(app.current_state.layers[1].data[0], None);
}

#[test]
fn undo_and_redo_on_empty_stacks_do_nothing() {
    let mut app = PaintApp::new(2, 2);
    app.undo();
    app.redo();
    assert!(app.undo_stack.is_empty());
    assert!(app.redo_stack.is_empty());
    assert!(!app.has_unsaved_changes);
}

#[test]
fn new_stroke_clears_redo() {
    let mut app = PaintApp::new(2, 2);
    app.record_change(0, 0, Some(red()));
    app.commit_stroke();
    app.undo();
    assert_eq!(app.redo_stack.len(), 1);
    app.record_change(1, 1, Some(red()));
    app.commit_stroke();
    assert!(app.redo_stack.is_empty());
}

#[test]
fn debounce_commits_after_delay() {
    let mut app = PaintApp::new(2, 2);
    app.record_change(0, 0, Some(red()));
    app.save_state(299);
    assert!(app.undo_stack.is_empty());
    assert_eq!(app.current_changes.len(), 1);
    app.save_state(300);
    assert_eq!(app.undo_stack.len(), 1);
    assert!(app.current_changes.is_empty());
}

#[test]
fn undo_of_a_stroke_touching_a_pixel_twice() {
    let mut app = PaintApp::new(2, 1);
    app.record_change(0, 0, Some(shade(1)));
    app.record_change(0, 0, Some(shade(2)));
    app.commit_stroke();
    app.undo();
    assert_eq!(app.current_state.get(0, 0), None);
    app.redo();
    assert_eq!(app.current_state.get(0, 0), Some(shade(2)));
}
