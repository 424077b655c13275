//! A wireframe renderer for a character grid: clipped line rasterization,
//! the fixed geometry of a cube, frame assembly and the camera controls of
//! an animation loop.

pub mod animation;
pub mod camera;
pub mod cube;
pub mod frame;
pub mod grid;
pub mod raster;
