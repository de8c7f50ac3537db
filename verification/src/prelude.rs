//! The most common functionality re-exported.

pub use crate::aabb::Aabb;
pub use crate::canvas::{Canvas, CanvasSpace, LayerKey, Rgb};
pub use crate::path::{LineCommand, Path, ToPaths};
pub use crate::point::{point2, vec2};
pub use crate::polyline::Polyline;
pub use crate::units::{Inches, Millis, NormalSpace, Paper};
