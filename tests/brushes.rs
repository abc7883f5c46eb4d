use rustique::{BrushManager, BrushType, BrushProperties, BlendMode, PaintApp, Rgba, Rotation, line_pixels, MenuAction};

#[test]
fn brush_type_names_and_indices() {
    let all = BrushType::all_types();
    assert_eq!(all.len(), 8);
    for (i, t) in all.iter().enumerate() {
        assert_eq!(t.get_default_index(), i);
    }
    assert_eq!(BrushType::Filbert.get_name(), "Filbert");
    assert_eq!(BrushType::Rigger.get_name(), "Rigger");
}

#[test]
fn presets_per_type() {
    let d = BrushProperties::default();
    assert_eq!(d.size, 10000);
    assert_eq!(d.blend_mode, BlendMode::Normal);
    let angle = BrushProperties::from_type(BrushType::Angle);
    assert_eq!(angle.base_rotation, 785);
    assert_eq!(angle.stretch_factor, 2000);
    let mop = BrushProperties::from_type(BrushType::Mop);
    assert_eq!((mop.hardness, mop.spacing), (500, 30));
    assert_eq!(BrushProperties::get_presets(BrushType::Round).len(), 2);
    assert_eq!(BrushProperties::get_presets(BrushType::Round)[1].hardness, 400);
    assert_eq!(BrushProperties::get_presets(BrushType::Flat)[1].stretch_factor, 6000);
    assert_eq!(BrushProperties::get_presets(BrushType::Fan).len(), 1);
}

#[test]
fn manager_selection() {
    let mut m = BrushManager::new();
    assert_eq!(m.brushes.len(), 8);
    assert_eq!(m.active_brush().brush_type, BrushType::Round);
    m.set_active_brush(4);
    assert_eq!(m.active_brush().brush_type, BrushType::Fan);
    m.set_active_brush(8);
    assert_eq!(m.active_brush_index, 4);
    m.active_brush_mut().hardness = 10;
    assert_eq!(m.brushes[4].hardness, 10);
    m.set_current_size(900);
    assert_eq!(m.current_size, 500);
    assert_eq!(BrushManager::default().current_size, 3);
}

#[test]
fn round_mask_is_a_disc() {
    // the centre lies at size / 2, half a cell right of and below the middle cell
    let m = BrushManager::new();
    let mask = m.generate_brush_mask(5, Rotation::identity());
    let on: Vec<u8> = mask.iter().map(|v| if *v == 255 { 1 } else { 0 }).collect();
    assert_eq!(
        on,
        vec![
            0, 0, 0, 0, 0, //
            0, 1, 1, 1, 1, //
            0, 1, 1, 1, 1, //
            0, 1, 1, 1, 1, //
            0, 1, 1, 1, 1,
        ]
    );
    assert!(mask.iter().all(|v| *v == 0 || *v == 255));
}

#[test]
fn flat_mask_is_a_vertical_band_unrotated() {
    let mut m = BrushManager::new();
    m.set_active_brush(BrushType::Flat.get_default_index());
    let mask = m.generate_brush_mask(11, Rotation::identity());
    // |2x - 11| * 5 <= 11 holds for x = 5 and x = 6 only
    for y in 0..11 {
        for x in 0..11 {
            assert_eq!(mask[y * 11 + x] == 255, x == 5 || x == 6);
        }
    }
    // a quarter turn makes it horizontal
    let turned = m.generate_brush_mask(11, Rotation { cos: 0, sin: 1024 });
    assert_eq!(turned[5 * 11 + 0], 255);
    assert_eq!(turned[0 * 11 + 5], 0);
}

#[test]
fn fan_mask_has_gaps_between_petals() {
    let mut m = BrushManager::new();
    m.set_active_brush(BrushType::Fan.get_default_index());
    let mask = m.generate_brush_mask(41, Rotation::identity());
    let on = mask.iter().filter(|v| **v == 255).count();
    assert!(on > 0);
    // straight to the left lies outside every petal
    assert_eq!(mask[20 * 41 + 2], 0);
    // the direction at angle 0.09 pi lies in the middle of a petal
    assert_eq!(mask[23 * 41 + 38], 255);
}

#[test]
fn brush_point_stamps_center_for_radius_one() {
    let mut m = BrushManager::new();
    m.set_current_size(1);
    let mut app = PaintApp::new(10, 10);
    let red = Rgba::new(255, 0, 0, 255);
    m.draw_point(5, 5, red, Rotation::identity(), &mut app);
    assert_eq!(app.current_state.get(5, 5), Some(red));
    // the mask's centre sits half a cell off the middle cell, so a 3-wide
    // round mask covers a 2 by 2 block
    assert_eq!(app.current_changes.len(), 4);
    assert_eq!(app.current_state.get(6, 6), Some(red));
    assert_eq!(app.current_state.get(4, 4), None);
    app.commit_stroke();
    app.undo();
    assert_eq!(app.current_state.get(5, 5), None);
    app.redo();
    assert_eq!(app.current_state.get(5, 5), Some(red));
}

#[test]
fn brush_point_keeps_color_alpha() {
    let mut m = BrushManager::new();
    m.set_current_size(2);
    let mut app = PaintApp::new(10, 10);
    let soft = Rgba::new(0, 0, 255, 100);
    m.draw_point(0, 0, soft, Rotation::identity(), &mut app);
    assert_eq!(app.current_state.get(0, 0), Some(soft));
    let clear = Rgba::new(0, 0, 255, 0);
    m.draw_point(0, 0, clear, Rotation::identity(), &mut app);
    assert_eq!(app.current_state.get(0, 0), None);
}

#[test]
fn bresenham_line_points() {
    let pts = line_pixels((0, 0), (3, 1));
    assert_eq!(pts, vec![(0, 0), (1, 0), (2, 1), (3, 1)]);
    let back = line_pixels((2, 2), (2, -1));
    assert_eq!(back, vec![(2, 2), (2, 1), (2, 0), (2, -1)]);
    assert_eq!(line_pixels((4, 4), (4, 4)), vec![(4, 4)]);
}

#[test]
fn line_of_stamps() {
    let mut app = PaintApp::new(10, 3);
    app.set_brush_size(1);
    app.draw_line((0, 1), (9, 1), Rgba::black());
    for x in 0..10 {
        assert_eq!(app.current_state.get(x, 1), Some(Rgba::black()));
        assert_eq!(app.current_state.get(x, 0), Some(Rgba::black()));
    }
    assert!(app.texture_dirty);
}

#[test]
fn stroke_stamps_follow_spacing() {
    let mut m = BrushManager::new();
    m.set_current_size(3);
    // spacing 50 thousandths times radius 3 is below one pixel: every step stamps
    assert_eq!(m.line_stamps((0, 0), (3, 0)), vec![(0, 0), (1, 0), (2, 0), (3, 0)]);
    m.active_brush_mut().spacing = 1000;
    // three pixels apart, the end added
    assert_eq!(m.line_stamps((0, 0), (7, 0)), vec![(0, 0), (3, 0), (6, 0), (7, 0)]);
    // diagonal steps count two squared pixels each
    assert_eq!(m.line_stamps((0, 0), (3, 3)), vec![(0, 0), (2, 2), (3, 3)]);
}

#[test]
fn menu_action_values() {
    assert_eq!(MenuAction::NewCanvas(800, 600), MenuAction::NewCanvas(800, 600));
    assert_ne!(MenuAction::OpenFile, MenuAction::NewCanvas(1, 1));
}

fn mask_of(kind: BrushType, size: usize) -> Vec<u8> {
    let mut m = BrushManager::new();
    m.set_active_brush(kind.get_default_index());
    m.generate_brush_mask(size, Rotation::identity())
}

fn on_cells(mask: &[u8], size: usize) -> Vec<(usize, usize)> {
    (0..mask.len()).filter(|i| mask[*i] == 255).map(|i| (i % size, i / size)).collect()
}

#[test]
fn bright_angle_and_rigger_masks_exact() {
    let bright = on_cells(&mask_of(BrushType::Bright, 11), 11);
    assert_eq!(bright.len(), 32);
    assert!(bright.iter().all(|(x, y)| (4..=7).contains(x) && (2..=9).contains(y)));

    let angle = on_cells(&mask_of(BrushType::Angle, 11), 11);
    assert_eq!(angle.len(), 48);
    assert!(angle.iter().all(|(x, y)| (2..=7).contains(x) && (2..=9).contains(y)));

    assert!(on_cells(&mask_of(BrushType::Rigger, 11), 11).is_empty());
    let rigger = on_cells(&mask_of(BrushType::Rigger, 25), 25);
    assert_eq!(rigger.len(), 44);
    assert!(rigger.iter().all(|(x, y)| (12..=13).contains(x) && (2..=23).contains(y)));
}

#[test]
fn filbert_mask_is_an_ellipse() {
    let m = mask_of(BrushType::Filbert, 11);
    assert_eq!(m[1 * 11 + 5], 255);
    assert_eq!(m[0 * 11 + 5], 0);
    assert_eq!(m[5 * 11 + 8], 255);
    assert_eq!(m[5 * 11 + 9], 0);
}

#[test]
fn mop_matches_round() {
    assert_eq!(mask_of(BrushType::Mop, 9), mask_of(BrushType::Round, 9));
    assert!(mask_of(BrushType::Round, 0).is_empty());
}

#[test]
fn brush_line_stamps_each_spaced_point() {
    let mut m = BrushManager::new();
    m.set_current_size(1);
    m.active_brush_mut().spacing = 1000;
    let mut app = PaintApp::new(10, 3);
    let ink = Rgba::new(3, 4, 5, 255);
    // radius 1: each stamp covers the 2 by 2 block right of and below the
    // point; a gap of one pixel stamps at every step
    m.draw_line((0, 0), (7, 0), ink, Rotation::identity(), &mut app);
    for x in 0..10 {
        let want = if x <= 8 { Some(ink) } else { None };
        assert_eq!(app.current_state.get(x, 0), want);
        assert_eq!(app.current_state.get(x, 1), want);
        assert_eq!(app.current_state.get(x, 2), None);
    }
    assert_eq!(app.current_changes.len(), 18);
    // a radius-0 mask covers no cell
    m.set_current_size(0);
    m.draw_line((0, 2), (7, 2), ink, Rotation::identity(), &mut app);
    assert_eq!(app.current_changes.len(), 18);
}
