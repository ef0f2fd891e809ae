//! Verified core pieces of a Monte Carlo path tracer: axis-aligned bounding
//! boxes, the construction of the bounding volume hierarchy over scene
//! objects, the Perlin lattice tables and image-texture texel lookup.

pub mod aabb;
pub mod bvh;
pub mod perlin;
mod random;
pub mod texture;
pub mod vector;
