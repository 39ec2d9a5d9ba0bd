//! Interactive polyline smoothing by corner-cutting subdivision.
//!
//! The library has two parts: a subdivision engine (one pass of Chaikin's
//! corner-cutting rule over a sequence of points) and an animation
//! controller that decides, frame by frame, when to apply the next pass,
//! when to loop back to the raw control points, and what geometry a
//! renderer should draw. Coordinates are fixed-point integers: each unit
//! is whatever sub-pixel granularity the caller chooses.

mod controller;
mod point;
mod subdivision;

pub use controller::{AnimationController, DisplaySpec, SegmentStyle, MAX_STEPS, STEP_DELAY_MS};
pub use point::Point;
pub use subdivision::chaikin;
