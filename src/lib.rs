//! An in-memory RGB raster with a background fill, a square brush and an
//! additive radial blend, each proved against a pixel-level model.

mod canvas;
mod color;
mod events;
mod laws;

pub use canvas::{
    Canvas, CanvasError, Raster, blend_channel, blend_pixel, dist2, in_square, offset,
};
pub use color::{Colour, Rgb};
pub use events::{BLEND_RADIUS, BRUSH_SIZE, Effect, Message, applied, refilled};
pub use laws::{
    blend_centre_full_strength, blend_twice_accumulates, clamp255, rect, stamp_inside_paints_square,
    stamp_spares_top_row,
};
