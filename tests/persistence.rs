use rustique::{PaintApp, Rgba, RustiqueFile, DocumentError, Layer, CanvasState};
use rustique::{chosen_format, needs_png_extension, quick_save_format, SaveFormat};

fn sample() -> PaintApp {
    let mut app = PaintApp::new(3, 2);
    app.record_change(0, 0, Some(Rgba::new(1, 2, 3, 4)));
    app.add_layer("Top".to_string());
    app.record_change(2, 1, Some(Rgba::new(9, 8, 7, 255)));
    app.toggle_layer_visibility(1);
    app.set_active_layer(0);
    app.add_saved_color(Rgba::new(5, 5, 5, 255));
    app.set_primary_color(Rgba::new(11, 12, 13, 14));
    app.set_brush_size(7);
    app.set_eraser_size(9);
    app
}

#[test]
fn native_round_trip() {
    let app = sample();
    let doc = app.to_document();
    let back = PaintApp::from_document(doc).unwrap();
    assert_eq!(back.current_state.width, 3);
    assert_eq!(back.current_state.height, 2);
    assert_eq!(back.current_state.layers.len(), 2);
    for (l, m) in back.current_state.layers.iter().zip(app.current_state.layers.iter()) {
        assert_eq!(l.name, m.name);
        assert_eq!(l.visible, m.visible);
        assert_eq!(l.data, m.data);
    }
    assert_eq!(back.current_state.active_layer_index, 0);
    assert_eq!(back.primary_color, Rgba::new(11, 12, 13, 14));
    assert_eq!(back.secondary_color, Rgba::white());
    assert_eq!(back.saved_colors, vec![Rgba::new(5, 5, 5, 255)]);
    assert_eq!(back.brush_size, 7);
    assert_eq!(back.eraser_size, 9);
    assert!(back.undo_stack.is_empty());
    assert!(!back.has_unsaved_changes);
}

fn doc_with(f: impl Fn(&mut RustiqueFile)) -> Result<PaintApp, DocumentError> {
    let mut d = sample().to_document();
    f(&mut d);
    PaintApp::from_document(d)
}

#[test]
fn malformed_documents_are_rejected() {
    assert_eq!(doc_with(|d| d.width = usize::MAX).err(), Some(DocumentError::AreaTooLarge));
    assert_eq!(doc_with(|d| d.layers.clear()).err(), Some(DocumentError::NoLayers));
    assert_eq!(doc_with(|d| { d.layers[1].data.pop(); }).err(), Some(DocumentError::LayerSizeMismatch));
    assert_eq!(doc_with(|d| d.active_layer_index = 2).err(), Some(DocumentError::ActiveLayerOutOfRange));
    assert_eq!(
        doc_with(|d| d.saved_colors.push(Rgba::new(5, 5, 5, 255))).err(),
        Some(DocumentError::InvalidPalette)
    );
    assert_eq!(doc_with(|d| d.eraser_size = 0).err(), Some(DocumentError::BrushSizeOutOfRange));
    assert!(doc_with(|_| {}).is_ok());
}

#[test]
fn flat_image_composites_visible_layers() {
    let app = sample();
    let bytes = app.current_state.flatten_rgba();
    assert_eq!(bytes.len(), 24);
    assert_eq!(&bytes[0..4], &[1, 2, 3, 4]);
    // the top layer is hidden, so (2, 1) is transparent
    assert_eq!(&bytes[20..24], &[0, 0, 0, 0]);
}

#[test]
fn display_buffer_uses_checkerboard() {
    let mut c = CanvasState::new(17, 1);
    c.set(0, 0, Some(Rgba::new(1, 2, 3, 4)));
    let bytes = c.render_rgba();
    assert_eq!(bytes.len(), 68);
    assert_eq!(&bytes[0..4], &[1, 2, 3, 4]);
    assert_eq!(&bytes[4..8], &[200, 200, 200, 255]);
    assert_eq!(&bytes[32..36], &[160, 160, 160, 255]);
    assert_eq!(&bytes[64..68], &[200, 200, 200, 255]);
}

#[test]
fn flat_image_load_keeps_alpha() {
    let bytes = vec![1, 2, 3, 0, 4, 5, 6, 7];
    let app = PaintApp::from_rgba(2, 1, &bytes);
    assert_eq!(app.current_state.layers.len(), 1);
    assert_eq!(app.current_state.layers[0].data, vec![None, Some(Rgba::new(4, 5, 6, 7))]);
    assert_eq!(app.brush_size, 3);
}

#[test]
fn copied_layer_is_equal() {
    let l = Layer { name: "n".to_string(), data: vec![None, Some(Rgba::black())], visible: false };
    let m = rustique::copy_layer(&l);
    assert_eq!(m.name, "n");
    assert_eq!(m.data, l.data);
    assert!(!m.visible);
}

#[test]
fn color_arrays() {
    let c = Rgba::new(1, 2, 3, 4);
    assert_eq!(c.to_array(), [1, 2, 3, 4]);
    assert_eq!(Rgba::from_array([1, 2, 3, 4]), c);
    assert!(rustique::same_color(None, None));
    assert!(!rustique::same_color(Some(c), None));
}

#[test]
fn file_formats_by_extension() {
    assert_eq!(quick_save_format("a/b.png"), Some(SaveFormat::Png));
    assert_eq!(quick_save_format("b.rustiq"), Some(SaveFormat::Native));
    assert_eq!(quick_save_format("b.PNG"), None);
    assert_eq!(quick_save_format("png"), None);
    assert_eq!(chosen_format("C:/x.RustIQ"), SaveFormat::Native);
    assert_eq!(chosen_format("x.jpg"), SaveFormat::Png);
    assert!(needs_png_extension("drawing"));
    assert!(!needs_png_extension("drawing.PnG"));
    assert!(needs_png_extension("été"));
}
