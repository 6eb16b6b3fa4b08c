// The integer core of a small sphere ray tracer: the RGBA pixel buffer and
// its row-major render loop, the scan that picks the nearest hit along a ray,
// the cap on reflection depth, and the camera's movement in unit steps.
use vstd::prelude::*;

pub mod camera;
pub mod image;
pub mod trace;

pub use camera::{Move, Translation};
pub use image::Image;
pub use trace::{nearest_hit, reflects, MAX_DEPTH};

verus! {

} // verus!
