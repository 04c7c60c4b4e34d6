//! The objects of a scene, as far as the rules read them.
//!
//! A scene is checked once, when it is built: every triangle must be a
//! triangle, and every object either names a material of the scene's table
//! or names none, and is then shaded with the default material: neutral,
//! fully diffuse white, emitting no light.  After that a lookup cannot fail.

use vstd::prelude::*;
use crate::error::Error;
use crate::integrator::Cast;
use crate::intersect::{is_sound_triangle, sound_triangle};

verus! {

/// The shape of an object, with the measures by which it is checked.
#[derive(Clone, Copy, Debug, PartialEq, Eq, Structural)]
pub enum Shape {
    Sphere,
    /// A triangle: the squared lengths of the edges from its first corner to
    /// its second and to its third, and the squared length of the cross
    /// product of those two edges, as bit patterns.
    Triangle { edge1: u32, edge2: u32, cross: u32 },
}

/// What the rules read of an object.
#[derive(Clone, Copy, Debug, PartialEq, Eq, Structural)]
pub struct Object {
    pub shape: Shape,
    /// Index of the object's material in the material table, if it has one.
    pub material_id: Option<usize>,
}

/// The object at which a scene was refused, and why.
#[derive(Clone, Copy, Debug, PartialEq, Eq, Structural)]
pub struct SceneError {
    /// Index of the first object that is at fault.
    pub object: usize,
    /// `DegenerateGeometry` for a triangle that is none,
    /// `PreconditionViolation` for a material index outside the table.
    pub error: Error,
}

/// The material that a hit on an object is shaded with.
#[derive(Clone, Copy, Debug, PartialEq, Eq, Structural)]
pub struct Surface {
    /// Index into the material table; `None` for the default material.
    pub material: Option<usize>,
    /// Whether the material emits light.  The default material does not.
    pub emits_light: bool,
}

/// Whether a material reference can be resolved against a table of `materials` entries.
pub open spec fn is_valid_reference(material_id: Option<usize>, materials: nat) -> bool {
    material_id matches Some(m) ==> m < materials
}

/// Whether a shape is sound: a sphere always is, a triangle when its
/// corners are far enough from one another and from one line.
pub open spec fn is_sound_shape(shape: Shape) -> bool {
    match shape {
        Shape::Sphere => true,
        Shape::Triangle { edge1, edge2, cross } => is_sound_triangle(edge1, edge2, cross),
    }
}

/// What is wrong with an object, if anything; its shape is looked at first.
pub open spec fn fault_of(object: Object, materials: nat) -> Option<Error> {
    if !is_sound_shape(object.shape) {
        Some(Error::DegenerateGeometry)
    } else if !is_valid_reference(object.material_id, materials) {
        Some(Error::PreconditionViolation)
    } else {
        None
    }
}

/// Whether nothing is wrong with any of the objects.
pub open spec fn all_sound(objects: Seq<Object>, materials: nat) -> bool {
    forall|i: int| 0 <= i < objects.len() ==> fault_of(#[trigger] objects[i], materials) is None
}

/// The surface that a material reference resolves to.
pub open spec fn resolve(material_id: Option<usize>, emits_light: Seq<bool>) -> Surface {
    match material_id {
        Some(m) => Surface { material: Some(m), emits_light: emits_light[m as int] },
        None => Surface { material: None, emits_light: false },
    }
}

/// What a ray met, for the integrator: the surface of the object that it
/// hit, or the sky.  `sun` is the cosine between the ray and the direction
/// towards the sun.  An object that the scene does not hold counts as none.
pub open spec fn cast_of(
    objects: Seq<Object>,
    emits_light: Seq<bool>,
    hit: Option<usize>,
    sun: u32,
) -> Cast {
    match hit {
        Some(object) if object < objects.len() => Cast::Hit {
            surface: resolve(objects[object as int].material_id, emits_light),
        },
        _ => Cast::Miss { sun },
    }
}

/// A checked scene: its objects, and what the integrator reads of its
/// material table.
pub struct Scene {
    objects: Vec<Object>,
    emits_light: Vec<bool>,
}

impl Scene {
    #[verifier::type_invariant]
    spec fn well_formed(self) -> bool {
        all_sound(self.objects@, self.emits_light@.len())
    }

    /// The objects, in the order of the scene's list.
    pub closed spec fn objects(self) -> Seq<Object> {
        self.objects@
    }

    /// For each entry of the material table, whether it emits light.
    pub closed spec fn emits_light(self) -> Seq<bool> {
        self.emits_light@
    }

    /// Checks an object against a material table of `materials` entries.
    pub fn check(object: &Object, materials: usize) -> (r: Result<(), Error>)
        ensures
            r == (match fault_of(*object, materials as nat) {
                Some(error) => Err::<(), Error>(error),
                None => Ok::<(), Error>(()),
            }),
    {
        match object.shape {
            Shape::Sphere => {},
            Shape::Triangle { edge1, edge2, cross } => {
                if sound_triangle(edge1, edge2, cross).is_err() {
                    return Err(Error::DegenerateGeometry);
                }
            },
        }
        match object.material_id {
            Some(m) => {
                if m >= materials {
                    return Err(Error::PreconditionViolation);
                }
            },
            None => {},
        }
        Ok(())
    }

    /// Builds a scene from its objects and from the material table, of
    /// which `emits_light[m]` says whether entry `m` emits light.  Refuses
    /// the scene when something is wrong with an object, and names the first
    /// such object and its fault.
    pub fn new(objects: Vec<Object>, emits_light: Vec<bool>) -> (r: Result<Scene, SceneError>)
        ensures
            r is Ok <==> all_sound(objects@, emits_light@.len()),
            r matches Ok(scene) ==> scene.objects() == objects@ && scene.emits_light()
                == emits_light@,
            r matches Err(refusal) ==> ({
                &&& refusal.object < objects@.len()
                &&& fault_of(objects@[refusal.object as int], emits_light@.len()) == Some(
                    refusal.error,
                )
                &&& all_sound(objects@.take(refusal.object as int), emits_light@.len())
            }),
    {
        let mut i: usize = 0;
        while i < objects.len()
            invariant
                i <= objects.len(),
                all_sound(objects@.take(i as int), emits_light@.len()),
            decreases objects.len() - i,
        {
            match Self::check(&objects[i], emits_light.len()) {
                Ok(()) => {},
                Err(error) => {
                    return Err(SceneError { object: i, error });
                },
            }
            proof {
                let seen = objects@.take(i + 1);
                assert forall|j: int| 0 <= j < seen.len() implies fault_of(
                    #[trigger] seen[j],
                    emits_light@.len(),
                ) is None by {
                    if j < i {
                        assert(seen[j] == objects@.take(i as int)[j]);
                    }
                }
            }
            i += 1;
        }
        proof {
            assert(objects@.take(i as int) == objects@);
        }
        Ok(Scene { objects, emits_light })
    }

    /// The number of objects.
    pub fn object_count(&self) -> (n: usize)
        ensures
            n == self.objects().len(),
    {
        self.objects.len()
    }

    /// The number of entries of the material table.
    pub fn material_count(&self) -> (n: usize)
        ensures
            n == self.emits_light().len(),
    {
        self.emits_light.len()
    }

    /// The material that a hit on object `object` is shaded with: the table's
    /// entry that the object names, or the default material when it names
    /// none.  An index that it returns is inside the table.  Returns `None`
    /// when the scene has no such object.
    pub fn surface(&self, object: usize) -> (r: Option<Surface>)
        ensures
            r is Some <==> object < self.objects().len(),
            r matches Some(surface) ==> ({
                &&& surface == resolve(
                    self.objects()[object as int].material_id,
                    self.emits_light(),
                )
                &&& surface.material matches Some(m) ==> m < self.emits_light().len()
            }),
    {
        proof {
            use_type_invariant(self);
        }
        if object >= self.objects.len() {
            return None;
        }
        match self.objects[object].material_id {
            Some(m) => {
                assert(fault_of(self.objects@[object as int], self.emits_light@.len()) is None);
                Some(Surface { material: Some(m), emits_light: self.emits_light[m] })
            },
            None => Some(Surface { material: None, emits_light: false }),
        }
    }

    /// What a ray met, for the integrator, where `hit` is the index of the
    /// object that the ray hit first, if it hit any, and `sun` is the cosine
    /// between the ray and the direction towards the sun.
    pub fn cast(&self, hit: Option<usize>, sun: u32) -> (r: Cast)
        ensures
            r == cast_of(self.objects(), self.emits_light(), hit, sun),
            r is Hit ==> (r->surface.material matches Some(m) ==> m < self.emits_light().len()),
    {
        match hit {
            Some(object) => match self.surface(object) {
                Some(surface) => Cast::Hit { surface },
                None => Cast::Miss { sun },
            },
            None => Cast::Miss { sun },
        }
    }
}

} // verus!
