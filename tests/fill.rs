use rustique::{PaintApp, Rgba, Tool};

fn a() -> Rgba {
    Rgba::new(10, 20, 30, 255)
}

fn b() -> Rgba {
    Rgba::new(200, 0, 0, 255)
}

#[test]
fn fill_connectivity_around_an_island() {
    let mut app = PaintApp::new(5, 5);
    for y in 0..5 {
        for x in 0..5 {
            app.record_change(x, y, Some(if x == 2 && y == 2 { b() } else { a() }));
        }
    }
    app.commit_stroke();
    let c = Rgba::new(0, 0, 255, 255);
    app.set_primary_color(c);
    app.paint_bucket(0, 0, false);
    assert_eq!(app.current_changes.len(), 24);
    for y in 0..5 {
        for x in 0..5 {
            let want = if x == 2 && y == 2 { b() } else { c };
            assert_eq!(app.current_state.get(x, y), Some(want));
        }
    }
}

#[test]
fn fill_with_same_color_is_noop() {
    let mut app = PaintApp::new(4, 4);
    app.set_primary_color(a());
    app.paint_bucket(0, 0, false);
    assert_eq!(app.current_changes.len(), 16);
    app.commit_stroke();
    app.paint_bucket(1, 1, false);
    assert!(app.current_changes.is_empty());
}

#[test]
fn fill_stops_at_other_colors_and_ignores_diagonals() {
    let mut app = PaintApp::new(3, 3);
    // a wall on the anti-diagonal splits the corner (0,0) region
    app.record_change(1, 0, Some(b()));
    app.record_change(0, 1, Some(b()));
    app.commit_stroke();
    app.set_primary_color(a());
    app.paint_bucket(0, 0, false);
    assert_eq!(app.current_changes.len(), 1);
    assert_eq!(app.current_state.get(0, 0), Some(a()));
    assert_eq!(app.current_state.get(1, 1), None);
}

#[test]
fn fill_skipped_on_hidden_layer_or_outside() {
    let mut app = PaintApp::new(3, 3);
    app.set_primary_color(a());
    app.paint_bucket(3, 0, false);
    assert!(app.current_changes.is_empty());
    app.toggle_layer_visibility(0);
    app.paint_bucket(0, 0, false);
    assert!(app.current_changes.is_empty());
}

#[test]
fn fill_with_eraser_clears_region() {
    let mut app = PaintApp::new(3, 1);
    app.set_primary_color(a());
    app.paint_bucket(0, 0, false);
    app.commit_stroke();
    app.set_active_tool(Tool::Eraser);
    app.paint_bucket(2, 0, false);
    assert_eq!(app.current_state.get(0, 0), None);
    assert_eq!(app.current_changes.len(), 3);
}

#[test]
fn fill_uses_secondary_color() {
    let mut app = PaintApp::new(2, 2);
    app.paint_bucket(0, 0, true);
    assert_eq!(app.current_state.get(1, 1), Some(Rgba::white()));
}
