use rustique::{PaintApp, Rgba, CanvasState};

fn red() -> Rgba {
    Rgba::new(255, 0, 0, 255)
}

fn green() -> Rgba {
    Rgba::new(0, 255, 0, 128)
}

#[test]
fn composite_reads_topmost_visible_layer() {
    let mut app = PaintApp::new(2, 2);
    app.record_change(0, 0, Some(red()));
    app.add_layer("Top".to_string());
    assert_eq!(app.current_state.get(0, 0), Some(red()));
    app.record_change(0, 0, Some(green()));
    assert_eq!(app.current_state.get(0, 0), Some(green()));
    app.toggle_layer_visibility(1);
    assert_eq!(app.current_state.get(0, 0), Some(red()));
    assert_eq!(app.current_state.get_from_active_layer(0, 0), Some(green()));
    assert_eq!(app.current_state.get(5, 0), None);
    assert_eq!(app.current_state.get_from_active_layer(0, 9), None);
}

#[test]
fn set_outside_is_silent() {
    let mut c = CanvasState::new(2, 2);
    c.set(2, 0, Some(red()));
    c.set(0, 2, Some(red()));
    assert!(c.layers[0].data.iter().all(|p| p.is_none()));
    c.set(1, 1, Some(red()));
    assert_eq!(c.layers[0].data[3], Some(red()));
    assert!(c.is_visible(0));
    assert!(!c.is_visible(1));
}

#[test]
fn add_layer_appends_and_activates() {
    let mut app = PaintApp::new(3, 2);
    app.add_layer("Ink".to_string());
    assert_eq!(app.current_state.layers.len(), 2);
    assert_eq!(app.current_state.active_layer_index, 1);
    assert_eq!(app.current_state.layers[1].name, "Ink");
    assert_eq!(app.current_state.layers[1].data.len(), 6);
    assert!(app.current_state.layers[1].visible);
    assert!(app.has_unsaved_changes);
}

#[test]
fn remove_last_layer_is_rejected() {
    let mut app = PaintApp::new(2, 2);
    app.remove_layer(0);
    assert_eq!(app.current_state.layers.len(), 1);
    assert!(!app.has_unsaved_changes);
}

#[test]
fn remove_layer_adjusts_active_index() {
    let mut app = PaintApp::new(2, 2);
    app.add_layer("A".to_string());
    app.add_layer("B".to_string());
    // active is 2 ("B"); removing layer 0 keeps "B" active
    app.remove_layer(0);
    assert_eq!(app.current_state.layers.len(), 2);
    assert_eq!(app.current_state.active_layer_index, 1);
    assert_eq!(app.current_state.layers[1].name, "B");
    // removing the active top layer moves the index down
    app.remove_layer(1);
    assert_eq!(app.current_state.active_layer_index, 0);
    assert_eq!(app.current_state.layers[0].name, "A");
    app.remove_layer(5);
    assert_eq!(app.current_state.layers.len(), 1);
}

#[test]
fn move_layers_swaps_and_follows_active() {
    let mut app = PaintApp::new(1, 1);
    app.add_layer("A".to_string());
    app.add_layer("B".to_string());
    app.set_active_layer(1);
    app.move_layer_up(1);
    assert_eq!(app.current_state.layers[0].name, "A");
    assert_eq!(app.current_state.layers[1].name, "Background");
    assert_eq!(app.current_state.active_layer_index, 0);
    app.move_layer_down(0);
    assert_eq!(app.current_state.layers[1].name, "A");
    assert_eq!(app.current_state.active_layer_index, 1);
    app.move_layer_down(2);
    app.move_layer_up(0);
    assert_eq!(app.current_state.layers[2].name, "B");
    app.set_active_layer(2);
    app.move_layer_up(2);
    assert_eq!(app.current_state.active_layer_index, 1);
    assert_eq!(app.current_state.layers[1].name, "B");
}

#[test]
fn set_active_and_rename_out_of_range_are_ignored() {
    let mut app = PaintApp::new(1, 1);
    app.set_active_layer(3);
    assert_eq!(app.current_state.active_layer_index, 0);
    app.rename_layer(1, "X".to_string());
    assert_eq!(app.current_state.layers[0].name, "Background");
    app.rename_layer(0, "Paper".to_string());
    assert_eq!(app.current_state.layers[0].name, "Paper");
    app.toggle_layer_visibility(4);
    assert!(app.current_state.layers[0].visible);
}

#[test]
fn palette_keeps_sixteen_newest() {
    let mut app = PaintApp::new(1, 1);
    for i in 0..17u8 {
        app.add_saved_color(Rgba::new(i, i, i, 255));
    }
    assert_eq!(app.saved_colors.len(), 16);
    assert!(!app.saved_colors.contains(&Rgba::new(0, 0, 0, 255)));
    assert_eq!(app.saved_colors[0], Rgba::new(1, 1, 1, 255));
    assert_eq!(app.saved_colors[15], Rgba::new(16, 16, 16, 255));
}

#[test]
fn palette_rejects_duplicates() {
    let mut app = PaintApp::new(1, 1);
    app.add_saved_color(red());
    app.add_saved_color(green());
    app.add_saved_color(red());
    assert_eq!(app.saved_colors, vec![red(), green()]);
    app.remove_saved_color(0);
    assert_eq!(app.saved_colors, vec![green()]);
    app.remove_saved_color(3);
    assert_eq!(app.saved_colors.len(), 1);
}

#[test]
fn colors_from_palette_and_picker() {
    let mut app = PaintApp::new(2, 1);
    app.add_saved_color(red());
    app.set_primary_color_from_saved(0);
    assert_eq!(app.primary_color, red());
    app.set_secondary_color_from_saved(1);
    assert_eq!(app.secondary_color, Rgba::white());
    app.record_change(1, 0, Some(green()));
    app.pick_color(1, 0, true);
    assert_eq!(app.secondary_color, green());
    app.pick_color(0, 0, false);
    assert_eq!(app.primary_color, red());
}

#[test]
fn brush_sizes_are_clamped() {
    let mut app = PaintApp::new(1, 1);
    app.set_brush_size(0);
    assert_eq!(app.brush_size, 1);
    app.set_eraser_size(900);
    assert_eq!(app.eraser_size, 500);
    assert_eq!(app.tool_size(), 1);
}
