//! The numeric-free core of a small path tracer.
//!
//! Everything here is stated over an arbitrary vector type, an arbitrary
//! ordered type of numbers and an arbitrary type of colours: the crate
//! decides which root of an intersection is reported, which object of a
//! scene is hit first, what a surface makes of a ray, when a light path ends
//! and how an image is written down as text. The arithmetic on vectors and
//! colours is the business of the caller, who hands over what it has
//! computed and gets back what follows from it.
//!
//! Numbers are only ever compared. What a function returns is stated twice:
//! by what the comparisons came out as, which holds of every type, and by
//! the order of the type, which holds where the comparisons compute it.
pub mod hittable;
pub mod hittable_list;
pub mod integrator;
pub mod interval;
pub mod material;
pub mod order;
pub mod ppm;
pub mod ray;
pub mod roots;
pub mod scene;
pub mod spectrum;
