//! Renders a raster image in a text terminal: each vertical pair of pixels
//! becomes one lower-half-block glyph whose background is the upper pixel and
//! whose foreground is the lower one, optionally quantized to the sixteen
//! classic terminal colors.
pub mod pixel;
pub mod palette;
pub mod grid;
pub mod render;
pub mod session;
pub mod cli;
