//! Batch compositing of subject photographs into decorated frame templates.
//!
//! A template is a raster whose alpha channel marks a transparent region; the
//! subject is resized to fill that region's bounding box and composited
//! beneath the template's opaque artwork, so the artwork frames the subject.

pub mod analyzer;
pub mod blend;
pub mod pixel;
pub mod place;
pub mod raster;
pub mod resize;

pub use analyzer::{calculate_transp, BBox};
pub use blend::{inverse_overlay, overlay};
pub use pixel::Pixel;
pub use place::{process_kid, CompositeError, Template};
pub use raster::Raster;
pub use resize::resize_to_fill;
