//! The discrete core of a terminal globe: a rectangular character texture,
//! sampling of that texture at integer grid coordinates, the assembly of the
//! sampled glyphs into frames, and the endless animation that shows them.
//!
//! Everything here computes on integers and characters. Where a ray meets the
//! sphere, and which grid coordinates that point has, is worked out in
//! floating point by the program around this library and handed in as
//! `sampler::GridCoords`.

pub mod animation;
pub mod frame;
pub mod lines;
pub mod sampler;
pub mod terminal;
pub mod texture;
