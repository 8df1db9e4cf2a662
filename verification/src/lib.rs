//! The order-and-structure core of an offline path tracer: scalars held by
//! their IEEE-754 bit patterns, axis-aligned bounding boxes, a bounding-volume
//! hierarchy in a flat arena, the intersection protocol of the primitives,
//! the scattering rules of the materials, the depth-bounded light transport
//! recursion and the row-band partition of an image.
//!
//! The library never computes with floating-point numbers. Every number that
//! the renderer works with is carried as a `Scalar`; the library compares,
//! selects and stores such numbers, and leaves arithmetic on them to its
//! caller, who hands it in as functions: `Arithmetic` for the primitives,
//! `Optics` for the materials, `Paint` for the textures. What the library
//! promises of a result is stated in terms of what these functions can
//! answer.

pub mod aabb;
pub mod bvh;
pub mod color;
pub mod intersection;
pub mod materials;
pub mod mesh;
pub mod objects;
pub mod protocol;
pub mod ray;
pub mod rendering;
pub mod rng;
pub mod scalar;
pub mod texture;
pub mod vec3;
