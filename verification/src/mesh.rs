//! Triangle meshes: from the flat lists of a mesh file to corners and
//! materials.

use vstd::prelude::*;
use crate::color::Color;
use crate::materials::{Dielectric, Lambertian, Material, Metal};
use crate::scalar::Scalar;
use crate::texture::{SolidColor, Texture};
use crate::vec3::Vec3;

verus! {

/// The illumination model of a clear body.
pub const GLASS_MODEL: u8 = 7;

/// The illumination model of a mirror.
pub const MIRROR_MODEL: u8 = 5;

/// The three corners of a face.
#[derive(Clone, Copy, Debug, PartialEq, Eq, Structural)]
pub struct Corners {
    pub v0: Vec3,
    pub v1: Vec3,
    pub v2: Vec3,
}

/// The material that stands for a material of a mesh file: a clear body with
/// the optical density as its index of refraction for illumination model 7,
/// a mirror of the diffuse colour with the inverse of the shininess as its
/// blur for illumination model 5, and a matte surface of the diffuse colour
/// for every other model and for none.
pub open spec fn spec_material_of_model(
    illumination_model: Option<u8>,
    diffuse: Color,
    optical_density: Scalar,
    inverse_shininess: Scalar,
) -> Material {
    let solid = Texture::SolidColor(SolidColor { color: diffuse });
    if illumination_model == Some(GLASS_MODEL) {
        Material::Dielectric(Dielectric { ir: optical_density })
    } else if illumination_model == Some(MIRROR_MODEL) {
        Material::Metal(Metal { texture: solid, fuzz: inverse_shininess })
    } else {
        Material::Labertian(Lambertian { texture: solid })
    }
}

/// The material that stands for a material of a mesh file.
pub fn material_of_model(
    illumination_model: Option<u8>,
    diffuse: Color,
    optical_density: Scalar,
    inverse_shininess: Scalar,
) -> (m: Material)
    ensures
        m == spec_material_of_model(illumination_model, diffuse, optical_density, inverse_shininess),
{
    match illumination_model {
        Some(model) => {
            if model == GLASS_MODEL {
                Dielectric::new(optical_density)
            } else if model == MIRROR_MODEL {
                Metal::new(SolidColor::new(diffuse), inverse_shininess)
            } else {
                Lambertian::new(SolidColor::new(diffuse))
            }
        },
        None => Lambertian::new(SolidColor::new(diffuse)),
    }
}

/// The material of a mesh: the one at the place that the mesh names in the
/// list of materials, or the default where it names none.
pub fn material_of_mesh(material_id: Option<usize>, materials: &Vec<Material>, default_mat: Material) -> (m:
    Material)
    requires
        material_id is Some ==> material_id->0 < materials.len(),
    ensures
        m == match material_id {
            Some(id) => materials[id as int],
            None => default_mat,
        },
{
    match material_id {
        Some(id) => materials[id],
        None => default_mat,
    }
}

/// The vertex at place `i` of a flat list of coordinates, three to a vertex.
pub open spec fn vertex_at(positions: Seq<Scalar>, i: int) -> Vec3 {
    Vec3 { x: positions[3 * i], y: positions[3 * i + 1], z: positions[3 * i + 2] }
}

/// The corners of the face at place `f`: the vertices that the three indices
/// of the face name.
pub open spec fn corners_at(positions: Seq<Scalar>, indices: Seq<u32>, f: int) -> Corners {
    Corners {
        v0: vertex_at(positions, indices[3 * f] as int),
        v1: vertex_at(positions, indices[3 * f + 1] as int),
        v2: vertex_at(positions, indices[3 * f + 2] as int),
    }
}

/// Whether every index that belongs to a face names a vertex that the list
/// of coordinates holds in full.
pub open spec fn indices_in_range(positions: Seq<Scalar>, indices: Seq<u32>) -> bool {
    forall|k: int| 0 <= k < 3 * (indices.len() / 3) ==> 3 * (#[trigger] indices[k]) + 2 < positions.len()
}

/// Whether every index that belongs to a face names a vertex that the list
/// of coordinates holds in full.
pub fn check_indices(positions: &Vec<Scalar>, indices: &Vec<u32>) -> (ok: bool)
    ensures
        ok == indices_in_range(positions@, indices@),
{
    let used = 3 * (indices.len() / 3);
    let mut k: usize = 0;
    while k < used
        invariant
            k <= used,
            used == 3 * (indices.len() / 3),
            used <= indices.len(),
            forall|q: int| 0 <= q < k ==> 3 * (#[trigger] indices[q]) + 2 < positions.len(),
        decreases used - k,
    {
        let i = indices[k] as u64;
        if 3 * i + 2 >= positions.len() as u64 {
            return false;
        }
        k += 1;
    }
    true
}

fn vertex(positions: &Vec<Scalar>, i: u32) -> (v: Vec3)
    requires
        3 * i + 2 < positions.len(),
    ensures
        v == vertex_at(positions@, i as int),
{
    let at: usize = 3 * (i as usize);
    Vec3::new(positions[at], positions[at + 1], positions[at + 2])
}

/// The corners of every face of a mesh, face by face. Three indices make a
/// face; indices left over at the end make none.
pub fn mesh_faces(positions: &Vec<Scalar>, indices: &Vec<u32>) -> (faces: Vec<Corners>)
    requires
        indices_in_range(positions@, indices@),
    ensures
        faces.len() == indices.len() / 3,
        forall|f: int|
            0 <= f < faces.len() ==> #[trigger] faces[f] == corners_at(positions@, indices@, f),
{
    let count = indices.len() / 3;
    let mut faces: Vec<Corners> = Vec::new();
    let mut f: usize = 0;
    while f < count
        invariant
            f <= count,
            count == indices.len() / 3,
            indices_in_range(positions@, indices@),
            faces.len() == f,
            forall|g: int|
                0 <= g < f ==> #[trigger] faces[g] == corners_at(positions@, indices@, g),
        decreases count - f,
    {
        let v0 = vertex(positions, indices[3 * f]);
        let v1 = vertex(positions, indices[3 * f + 1]);
        let v2 = vertex(positions, indices[3 * f + 2]);
        faces.push(Corners { v0, v1, v2 });
        f += 1;
    }
    faces
}

} // verus!
