//! Integer core of a small path tracer: the plain-text PPM encoding of a
//! finished image, the order in which pixels are emitted, and the decision
//! that ends or continues a ray's path through the scene.
pub mod ppm;
pub mod raster;
pub mod trace;
