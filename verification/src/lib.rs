//! State, text grammars and glyph layout of a small immediate-mode drawing
//! surface for music notation.

pub mod color;
pub mod context;
pub mod fixed;
pub mod font;
pub mod fonts;
pub mod geometry;
pub mod glyph;
pub mod host;
pub mod path;
pub mod raster;
pub mod round_trip;
pub mod scan;
