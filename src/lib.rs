//! The shading core of a recursive ray tracer: the color algebra, the framebuffer,
//! and the depth-bounded recursion that combines lighting, reflection and refraction.
//! The geometry that finds hits is supplied through the `RayTracer` trait.
pub mod color;
pub mod framebuffer;
pub mod shading;
