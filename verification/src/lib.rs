//! A vector-drawing core for pen plotters: sheets of paper with margins,
//! paths in a normalized or a physical coordinate space, layers with a pen
//! style each, a view window fitted to what was drawn, and the assembly of
//! the drawing into an SVG document.
//!
//! Every scalar is a fixed-point integer. Lengths and positions on the sheet
//! count thousandths of the sheet's unit; positions in the normalized space
//! count millionths of the drawable area's side.

pub mod aabb;
pub mod canvas;
pub mod decimal;
pub mod export;
pub mod hull;
pub mod papers;
pub mod path;
pub mod point;
pub mod polyline;
pub mod prelude;
pub mod serve;
pub mod slots;
pub mod svgdoc;
pub mod transform;
pub mod units;
