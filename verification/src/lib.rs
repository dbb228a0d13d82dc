//! A software renderer that draws a rotating parametric heart surface as
//! ASCII shading: surface sampling, two axis rotations, perspective
//! projection, depth-tested rasterization and luminance mapping, all in
//! fixed-point arithmetic with exact contracts.

pub mod anim;
pub mod fx;
pub mod luminance;
pub mod range;
pub mod render;
pub mod surface;
pub mod trig;
