//! From an indexed mesh to the corners of its triangles.
//!
//! A mesh lists its vertex positions as three coordinates for each vertex, its
//! faces as runs of vertex numbers in one index list, and the length of each
//! run.  This module checks that every face is a triangle whose corners have
//! positions, and gives each face's three vertex numbers; the caller reads the
//! coordinates.

use vstd::prelude::*;

verus! {

/// Why a mesh was refused.
#[derive(Clone, Copy, Debug, PartialEq, Eq, Structural)]
pub enum MeshError {
    /// The index list ends before face `face` does.
    MissingIndices { face: usize },
    /// Face `face` does not have three corners.
    FaceNotTriangle { face: usize },
    /// Corner `corner` of face `face` names a vertex without a position.
    MissingVertex { face: usize, corner: usize },
}

impl MeshError {
    /// The face at which the mesh was refused.
    pub open spec fn face(self) -> usize {
        match self {
            MeshError::MissingIndices { face } => face,
            MeshError::FaceNotTriangle { face } => face,
            MeshError::MissingVertex { face, .. } => face,
        }
    }
}

/// Whether vertex `vertex` has its three coordinates among `coordinates` numbers.
pub open spec fn has_position(vertex: u32, coordinates: nat) -> bool {
    3 * vertex + 2 < coordinates
}

/// Whether the index list holds the indices of face `face`, where the faces
/// before it are triangles.
pub open spec fn face_is_listed(arities: Seq<u32>, indices: Seq<u32>, face: int) -> bool {
    3 * face + arities[face] <= indices.len()
}

/// The first corner of triangle `face` that names a vertex without a position, if there is one.
pub open spec fn first_missing(indices: Seq<u32>, coordinates: nat, face: int) -> Option<int> {
    if !has_position(indices[3 * face], coordinates) {
        Some(0)
    } else if !has_position(indices[3 * face + 1], coordinates) {
        Some(1)
    } else if !has_position(indices[3 * face + 2], coordinates) {
        Some(2)
    } else {
        None
    }
}

/// What is wrong with face `face`, where the faces before it are sound
/// triangles; `None` when it is a triangle whose three corners have positions.
pub open spec fn face_fault(arities: Seq<u32>, indices: Seq<u32>, coordinates: nat, face: int) -> Option<
    MeshError,
> {
    if !face_is_listed(arities, indices, face) {
        Some(MeshError::MissingIndices { face: face as usize })
    } else if arities[face] != 3 {
        Some(MeshError::FaceNotTriangle { face: face as usize })
    } else {
        match first_missing(indices, coordinates, face) {
            Some(corner) => Some(
                MeshError::MissingVertex { face: face as usize, corner: corner as usize },
            ),
            None => None,
        }
    }
}

/// Whether the first `faces` faces are triangles whose corners have positions.
pub open spec fn faces_are_sound(
    arities: Seq<u32>,
    indices: Seq<u32>,
    coordinates: nat,
    faces: int,
) -> bool {
    forall|f: int| 0 <= f < faces ==> #[trigger] face_fault(arities, indices, coordinates, f) is None
}

/// The three vertex numbers of triangle `face`.
pub open spec fn face_corners(indices: Seq<u32>, face: int) -> Seq<usize> {
    seq![
        indices[3 * face] as usize,
        indices[3 * face + 1] as usize,
        indices[3 * face + 2] as usize,
    ]
}

/// The three vertex numbers of each face of a mesh.  `num_face_indices[f]`
/// is the number of corners of face `f`, `indices` holds the vertex numbers
/// of all faces one after the other, and `coordinates` is the length of the
/// list of positions, which holds three numbers for each vertex.
///
/// Succeeds when every face is a triangle whose corners have positions.
/// Otherwise the error is that of the first face that is not, and says what
/// the face lacks: its indices, or else three corners, or else the position
/// of its first corner without one.
pub fn triangles(num_face_indices: &Vec<u32>, indices: &Vec<u32>, coordinates: usize) -> (r: Result<
    Vec<[usize; 3]>,
    MeshError,
>)
    ensures
        r is Ok <==> faces_are_sound(
            num_face_indices@,
            indices@,
            coordinates as nat,
            num_face_indices@.len() as int,
        ),
        r matches Ok(corners) ==> ({
            &&& corners@.len() == num_face_indices@.len()
            &&& forall|f: int|
                0 <= f < corners@.len() ==> (#[trigger] corners@[f])@ == face_corners(indices@, f)
        }),
        r matches Err(error) ==> ({
            &&& error.face() < num_face_indices@.len()
            &&& faces_are_sound(
                num_face_indices@,
                indices@,
                coordinates as nat,
                error.face() as int,
            )
            &&& face_fault(num_face_indices@, indices@, coordinates as nat, error.face() as int)
                == Some(error)
        }),
{
    let mut corners: Vec<[usize; 3]> = Vec::new();
    let mut face: usize = 0;
    let mut next: usize = 0;
    while face < num_face_indices.len()
        invariant
            face <= num_face_indices.len(),
            next == 3 * face,
            next <= indices.len(),
            corners@.len() == face,
            faces_are_sound(num_face_indices@, indices@, coordinates as nat, face as int),
            forall|f: int| 0 <= f < face ==> (#[trigger] corners@[f])@ == face_corners(indices@, f),
        decreases num_face_indices.len() - face,
    {
        let arity = num_face_indices[face] as usize;
        if arity > indices.len() - next {
            return Err(MeshError::MissingIndices { face });
        }
        if arity != 3 {
            return Err(MeshError::FaceNotTriangle { face });
        }
        let mut triangle: [usize; 3] = [0, 0, 0];
        let mut corner: usize = 0;
        while corner < 3
            invariant
                corner <= 3,
                face < num_face_indices.len(),
                next == 3 * face,
                next + 3 <= indices.len(),
                num_face_indices@[face as int] == 3,
                faces_are_sound(num_face_indices@, indices@, coordinates as nat, face as int),
                corner > 0 ==> has_position(indices@[next as int], coordinates as nat)
                    && triangle@[0] == indices@[next as int],
                corner > 1 ==> has_position(indices@[next + 1], coordinates as nat)
                    && triangle@[1] == indices@[next + 1],
                corner > 2 ==> has_position(indices@[next + 2], coordinates as nat)
                    && triangle@[2] == indices@[next + 2],
            decreases 3 - corner,
        {
            let vertex = indices[next + corner];
            if vertex as u64 * 3 + 2 >= coordinates as u64 {
                return Err(MeshError::MissingVertex { face, corner });
            }
            triangle[corner] = vertex as usize;
            corner += 1;
        }
        let ghost before = corners@;
        corners.push(triangle);
        proof {
            assert(face_fault(num_face_indices@, indices@, coordinates as nat, face as int) is None);
            assert(triangle@ == face_corners(indices@, face as int));
            assert forall|f: int| 0 <= f < face + 1 implies (#[trigger] corners@[f])@
                == face_corners(indices@, f) by {
                if f < face {
                    assert(corners@[f] == before[f]);
                }
            }
        }
        next += 3;
        face += 1;
    }
    Ok(corners)
}

} // verus!
