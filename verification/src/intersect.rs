//! The rules by which a ray meets a sphere or a triangle.
//!
//! The caller computes the quantities of an intersection in single
//! precision, whatever they come to, and hands them over as bit patterns.
//! This module decides from them whether the ray hits, at which distance,
//! and which way the surface's normal is to point.  A quantity that is no
//! number never makes a hit.

use vstd::prelude::*;
use crate::error::Error;
use crate::single::{
    abs,
    absolute,
    at_most,
    is_nan,
    is_positive,
    is_rounded,
    le,
    less,
    lesser,
    lt,
    min,
    nan,
    negated,
    positive,
    ZERO,
};
use crate::vector::{is_normalizable, normalizable};

verus! {

/// The pattern of 1e-6, rounded to single precision: a ray is parallel to a
/// plane when the cosine between it and the plane's normal is nearer to zero
/// than this.
pub const PARALLEL: u32 = 0x3586_37bd;

/// The pattern of 1e-4, rounded to single precision: a plane is hit only
/// farther away than this.
pub const MIN_DISTANCE: u32 = 0x38d1_b717;

/// The pattern of 1e-4, rounded to single precision: a hit point whose
/// squared distance from a corner is less than this is too near to it to be
/// placed on one side of an edge.
pub const MIN_OFFSET: u32 = 0x38d1_b717;

/// The pattern of 1e-5, rounded to single precision: the squared length of
/// each of the two edges of a triangle that start at its first corner must
/// be greater than this.
pub const MIN_EDGE: u32 = 0x3727_c5ac;

/// The pattern of 1e-4, rounded to single precision: the squared length of
/// the cross product of those two edges must be greater than this.
pub const MIN_CROSS: u32 = 0x38d1_b717;

/// What the caller has computed of a ray and a sphere.  With `rel` the
/// sphere's centre minus the ray's origin, `dir` the ray's direction, of
/// unit length, and `r` the radius:
#[derive(Clone, Copy, Debug)]
pub struct SphereProbe {
    /// `d = dot(dir, rel)^2 - (len2(rel) - r^2)`.
    pub discriminant: u32,
    /// `dot(dir, rel) + sqrt(d) / 2` and `dot(dir, rel) - sqrt(d) / 2`.
    pub roots: [u32; 2],
    /// The length of the vector from the centre to the point at the nearer
    /// root, which is normalised to give the surface's normal.
    pub normal_length: u32,
}

/// What the caller has computed of a ray and a triangle.  With `normal` the
/// normalised cross product of the two edges that start at the first
/// corner, and `dir` the ray's direction, of unit length:
#[derive(Clone, Copy, Debug)]
pub struct TriangleProbe {
    /// The length of the cross product before it was normalised.
    pub normal_length: u32,
    /// `dot(normal, dir)`.
    pub facing: u32,
    /// The distance along the ray to the triangle's plane:
    /// `dot(normal, corner[0] - origin) / dot(normal, dir)`.
    pub distance: u32,
    /// For each corner `i`, the squared length of `hit - corner[i]`, where
    /// `hit` is the point of the plane that the ray meets.
    pub offsets: [u32; 3],
    /// For each corner `i`, `dot(normal, cross(edge, hit - corner[i]))`,
    /// where `edge` leads from corner `i` to the next corner, the first
    /// following the last: not negative when `hit` lies on the triangle's
    /// side of that edge.
    pub sides: [u32; 3],
}

/// What the caller has computed of a ray and an object, by the object's shape.
#[derive(Clone, Copy, Debug)]
pub enum Probe {
    Sphere(SphereProbe),
    Triangle(TriangleProbe),
}

/// A ray's hit on an object.
#[derive(Clone, Copy, Debug, PartialEq, Eq, Structural)]
pub struct Hit {
    /// The distance from the ray's origin.
    pub distance: u32,
    /// Whether the surface's normal, as the caller computed it, is to be
    /// negated so that it points against the ray.  A sphere's normal, which
    /// points away from its centre, never is.
    pub flip_normal: bool,
}

/// Whether a ray hits a sphere: the discriminant is greater than zero, both
/// roots are numbers, the nearer of them is greater than zero, and the
/// normal can be normalised.  So the ray misses a sphere that lies behind
/// its origin, and also one that its origin lies inside of.
pub open spec fn hits_sphere(probe: SphereProbe) -> bool {
    &&& is_positive(probe.discriminant)
    &&& !is_nan(probe.roots[0])
    &&& !is_nan(probe.roots[1])
    &&& is_positive(lesser(probe.roots[0], probe.roots[1]))
    &&& is_normalizable(probe.normal_length)
}

/// The hit of a ray on a sphere, if there is one: at the nearer root.
pub open spec fn sphere_hit(probe: SphereProbe) -> Option<Hit> {
    if hits_sphere(probe) {
        Some(Hit { distance: lesser(probe.roots[0], probe.roots[1]), flip_normal: false })
    } else {
        None
    }
}

/// Whether the hit point lies on the triangle's side of the edge that
/// starts at corner `i`, and not too near to that corner to tell: its
/// squared distance from the corner is at least `MIN_OFFSET`, and the side
/// is not below zero.
pub open spec fn is_inside_edge(probe: TriangleProbe, i: int) -> bool {
    at_most(MIN_OFFSET, probe.offsets[i]) && at_most(ZERO, probe.sides[i])
}

/// Whether a ray hits a triangle: the triangle's normal can be normalised,
/// the ray is not parallel to the triangle's plane (the magnitude of
/// `facing` is at least `PARALLEL`), it meets the plane farther away than
/// `MIN_DISTANCE`, and the point where it does lies inside all three edges.
pub open spec fn hits_triangle(probe: TriangleProbe) -> bool {
    &&& is_normalizable(probe.normal_length)
    &&& at_most(PARALLEL, absolute(probe.facing))
    &&& less(MIN_DISTANCE, probe.distance)
    &&& is_inside_edge(probe, 0)
    &&& is_inside_edge(probe, 1)
    &&& is_inside_edge(probe, 2)
}

/// The hit of a ray on a triangle, if there is one.  The normal is negated
/// when it does not point against the ray: when `dot(normal, dir) >= 0`.
pub open spec fn triangle_hit(probe: TriangleProbe) -> Option<Hit> {
    if hits_triangle(probe) {
        Some(Hit { distance: probe.distance, flip_normal: at_most(ZERO, probe.facing) })
    } else {
        None
    }
}

/// The hit of a ray on an object, if there is one.
pub open spec fn hit_of(probe: Probe) -> Option<Hit> {
    match probe {
        Probe::Sphere(sphere) => sphere_hit(sphere),
        Probe::Triangle(triangle) => triangle_hit(triangle),
    }
}

/// Whether the corners of a triangle are far enough from one another and
/// from one line.  `edge1` and `edge2` are the squared lengths of the edges
/// from the first corner to the second and to the third, `cross` is the
/// squared length of the cross product of those two edges.
pub open spec fn is_sound_triangle(edge1: u32, edge2: u32, cross: u32) -> bool {
    less(MIN_EDGE, edge1) && less(MIN_EDGE, edge2) && less(MIN_CROSS, cross)
}

/// Decides whether a ray hits a sphere, and at which distance.
pub fn ray_sphere(probe: &SphereProbe) -> (r: Option<Hit>)
    ensures
        r == sphere_hit(*probe),
        r matches Some(hit) ==> is_positive(hit.distance),
{
    if !positive(probe.discriminant) || nan(probe.roots[0]) || nan(probe.roots[1]) {
        return None;
    }
    let nearer = min(probe.roots[0], probe.roots[1]);
    if !positive(nearer) {
        return None;
    }
    match normalizable(probe.normal_length) {
        Ok(()) => Some(Hit { distance: nearer, flip_normal: false }),
        Err(_) => None,
    }
}

/// Decides whether a ray hits a triangle, at which distance, and whether
/// the triangle's normal is to be negated to point against the ray.
pub fn ray_triangle(probe: &TriangleProbe) -> (r: Option<Hit>)
    ensures
        r == triangle_hit(*probe),
        r matches Some(hit) ==> is_positive(hit.distance),
{
    if normalizable(probe.normal_length).is_err() {
        return None;
    }
    if !le(PARALLEL, abs(probe.facing)) {
        return None;
    }
    if !lt(MIN_DISTANCE, probe.distance) {
        return None;
    }
    let mut i: usize = 0;
    while i < 3
        invariant
            i <= 3,
            i > 0 ==> is_inside_edge(*probe, 0),
            i > 1 ==> is_inside_edge(*probe, 1),
            i > 2 ==> is_inside_edge(*probe, 2),
        decreases 3 - i,
    {
        if !le(MIN_OFFSET, probe.offsets[i]) {
            return None;
        }
        if !le(ZERO, probe.sides[i]) {
            return None;
        }
        i += 1;
    }
    Some(Hit { distance: probe.distance, flip_normal: le(ZERO, probe.facing) })
}

/// Decides whether a ray hits an object, at which distance, and whether
/// the surface's normal is to be negated.
pub fn intersect(probe: &Probe) -> (r: Option<Hit>)
    ensures
        r == hit_of(*probe),
        r matches Some(hit) ==> is_positive(hit.distance),
{
    match probe {
        Probe::Sphere(sphere) => ray_sphere(sphere),
        Probe::Triangle(triangle) => ray_triangle(triangle),
    }
}

/// Decides whether the corners of a triangle make a triangle, from the
/// squared lengths of its two edges at the first corner and of their cross
/// product.
pub fn sound_triangle(edge1: u32, edge2: u32, cross: u32) -> (r: Result<(), Error>)
    ensures
        r is Ok <==> is_sound_triangle(edge1, edge2, cross),
        r is Err ==> r == Err::<(), Error>(Error::DegenerateGeometry),
{
    if lt(MIN_EDGE, edge1) && lt(MIN_EDGE, edge2) && lt(MIN_CROSS, cross) {
        Ok(())
    } else {
        Err(Error::DegenerateGeometry)
    }
}

/// The thresholds are the decimal numbers that they are named for, rounded
/// to single precision: a millionth, a ten-thousandth, a hundred-thousandth.
pub proof fn lemma_thresholds()
    ensures
        is_rounded(PARALLEL, 1, 1_000_000),
        is_rounded(MIN_DISTANCE, 1, 10_000),
        is_rounded(MIN_OFFSET, 1, 10_000),
        is_rounded(MIN_EDGE, 1, 100_000),
        is_rounded(MIN_CROSS, 1, 10_000),
{
    vstd::arithmetic::power2::lemma2_to64();
    vstd::arithmetic::power2::lemma_pow2_adds(32, 5);
    vstd::arithmetic::power2::lemma_pow2_adds(32, 8);
    vstd::arithmetic::power2::lemma_pow2_adds(32, 11);
    assert(crate::single::scale(PARALLEL) == 43);
    assert(crate::single::significand(PARALLEL) == 8_796_093);
    assert(crate::single::scale(MIN_DISTANCE) == 37);
    assert(crate::single::significand(MIN_DISTANCE) == 13_743_895);
    assert(crate::single::scale(MIN_EDGE) == 40);
    assert(crate::single::significand(MIN_EDGE) == 10_995_116);
}

/// The normal that a hit on a triangle is shaded with points against the
/// ray: after the flip that the hit calls for, its cosine with the ray's
/// direction is at most zero, so that the cosine weight of the hit, which
/// is the cosine between the normal and the way back along the ray, is not
/// below zero.
pub proof fn lemma_normal_opposes_ray(probe: TriangleProbe)
    requires
        triangle_hit(probe) is Some,
    ensures
        ({
            let hit = triangle_hit(probe).unwrap();
            let facing = if hit.flip_normal {
                negated(probe.facing)
            } else {
                probe.facing
            };
            at_most(facing, ZERO) && at_most(ZERO, negated(facing))
        }),
{
}

} // verus!
