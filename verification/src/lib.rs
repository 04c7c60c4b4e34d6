//! The rules of a path tracer.
//!
//! A path tracer follows light backwards: from the eye through each pixel
//! into the scene, from surface to surface, until the path leaves the scene
//! or has been reflected often enough.  This library holds what is decided
//! along the way: whether a scene is sound, whether and where a ray hits an
//! object, which of the objects it hits first, how a path is bounced and
//! which light it gathers, how a colour becomes a pixel and where the pixel
//! lies in the frame.
//!
//! The arithmetic on real numbers is the caller's.  It is done in IEEE-754
//! single precision, and its results cross the boundary as bit patterns, on
//! which every decision here is exact (see `single`).
//!
//! - `single`: sign and order of numbers given as bit patterns
//! - `vector`: what the length of a vector allows
//! - `intersect`: the hit of a ray on a sphere or a triangle
//! - `raycast`: the nearest hit among the objects of a scene
//! - `scene`: the checks on a scene, and the material of a hit
//! - `integrator`: the bounces of a light path
//! - `color`: from a colour to the bytes of a pixel
//! - `raster`: pixels, their rays and the frame
//! - `sampling`: random points of the unit ball
//! - `mesh`: the triangles of an indexed mesh

pub mod color;
pub mod error;
pub mod integrator;
pub mod intersect;
pub mod mesh;
pub mod raster;
pub mod raycast;
pub mod sampling;
pub mod scene;
pub mod single;
pub mod vector;

pub use crate::error::Error;
pub use crate::integrator::{raytrace, Cast, Shading, Tracer};
pub use crate::intersect::{intersect, Hit, Probe, SphereProbe, TriangleProbe};
pub use crate::mesh::{triangles, MeshError};
pub use crate::raster::{PixelRay, Raster};
pub use crate::raycast::{closer, raycast, RayHit};
pub use crate::sampling::{first_in_ball, random_spherepoint, LatticePoint};
pub use crate::scene::{Object, Scene, SceneError, Shape, Surface};
