//! A layered raster paint engine: a pixel store of layers, per-pixel undo
//! history grouped into strokes, brush masks, stroke rasterisation, flood fill
//! and the conversions behind the native and flat file formats.

mod color;
mod canvas;
mod paint;
mod laws;
mod layers;
mod palette;
mod fill;
mod stroke;
mod document;
mod raster;
mod brush;
mod mask;
mod brush_stroke;
mod formats;

pub use color::{Rgba, Tool, MenuAction, same_color};
pub use canvas::{Layer, LayerView, CanvasState, CanvasView};
pub use paint::{CanvasChange, PaintApp, PaintView, MAX_UNDO_STEPS, SAVE_STATE_DELAY_MS, MAX_SAVED_COLORS, MAX_BRUSH_SIZE};
pub use paint::{revert, inverse};
pub use laws::{PixelWrite, record_each, record_each_upto, takes_effect, all_take_effect, undo_times, redo_times, lemma_undo_redo_inverse, lemma_record_same_color_is_noop, keep_last, commit_each, lemma_bounded_history, offer_each, lemma_palette_bound};
pub use layers::{active_after_remove, active_after_swap, swap_layers};
pub use palette::clamp_size;
pub use fill::{adjacent, closed_under, fill_region, paint_color, fill_applies};
pub use stroke::{tool_size, disc_from, round_stamp, round_stamps, line_walk, line_points, line_pixels, points_of, coord_ok, abs};
pub use document::{RustiqueFile, DocumentView, DocumentError, doc_of, doc_error, app_of, lemma_document_round_trip, copy_layer};
pub use raster::{CHECKERBOARD_SIZE, channel, flat_color, checker_color, display_color, cell_of_bytes};
pub use brush::{BrushType, BlendMode, BrushProperties, brush_name, brush_index, all_brush_types, preset_of, default_brush, presets_of};
pub use mask::{ROTATION_SCALE, MAX_MASK_SIZE, MAX_STAMP_RADIUS, Rotation, rot_x, rot_y, fan_edges, in_petal, shape_covers, mask_on, shape_covers_exec, BrushManager};
pub use brush_stroke::{masked_color, brush_stamp_from, spaced_walk, stamp_gap, stroke_points, brush_stamps};
pub use formats::{SaveFormat, ends_with, ascii_lower, lowered, png_suffix, native_suffix, quick_save_format, chosen_format, needs_png_extension};
