use vstd::prelude::*;
use crate::common::vertex::Vertex;
use crate::common::voxel_material::Rgba;

verus! {

/// The buffers of a triangle list, as a renderer or a collider takes them:
/// one entry of each for every vertex.
pub struct MeshBuffers {
    /// The number of each vertex: the vertices are not shared, so these
    /// count up from zero.
    pub indices: Vec<u32>,
    /// Positions `[x, y, z]`, in thousandths.
    pub positions: Vec<[i64; 3]>,
    /// Unit normals `[x, y, z]`, in thousandths.
    pub normals: Vec<[i64; 3]>,
    /// The flat colour of each vertex's material.
    pub colors: Vec<Rgba>,
    /// Texture coordinates `[u, v]`, in thousandths: all `[1000, 1000]`.
    pub uvs: Vec<[i64; 2]>,
}

/// Lays the vertices of a surface out in the buffers of a triangle list.
pub fn generate_mesh(vertices: Vec<Vertex>) -> (mesh: MeshBuffers)
    requires
        vertices.len() <= u32::MAX,
    ensures
        mesh.indices.len() == vertices.len(),
        mesh.positions.len() == vertices.len(),
        mesh.normals.len() == vertices.len(),
        mesh.colors.len() == vertices.len(),
        mesh.uvs.len() == vertices.len(),
        forall|i: int|
            0 <= i < vertices.len() ==> {
                &&& #[trigger] mesh.indices[i] == i
                &&& mesh.positions[i][0] == vertices[i].pos.x.0
                &&& mesh.positions[i][1] == vertices[i].pos.y.0
                &&& mesh.positions[i][2] == vertices[i].pos.z.0
                &&& mesh.normals[i][0] == vertices[i].normal.x
                &&& mesh.normals[i][1] == vertices[i].normal.y
                &&& mesh.normals[i][2] == vertices[i].normal.z
                &&& mesh.colors[i] == vertices[i].voxel_material.color()
                &&& mesh.uvs[i][0] == 1000
                &&& mesh.uvs[i][1] == 1000
            },
{
    let mut indices_vec: Vec<u32> = Vec::new();
    let mut positions: Vec<[i64; 3]> = Vec::new();
    let mut normals: Vec<[i64; 3]> = Vec::new();
    let mut colors: Vec<Rgba> = Vec::new();
    let mut uvs: Vec<[i64; 2]> = Vec::new();
    let mut k: usize = 0;
    while k < vertices.len()
        invariant
            vertices.len() <= u32::MAX,
            k <= vertices.len(),
            indices_vec.len() == k,
            positions.len() == k,
            normals.len() == k,
            colors.len() == k,
            uvs.len() == k,
            forall|i: int| 0 <= i < k ==> #[trigger] indices_vec[i] == i,
            forall|i: int|
                0 <= i < k ==> (#[trigger] positions[i])[0] == vertices[i].pos.x.0 && positions[i][1]
                    == vertices[i].pos.y.0 && positions[i][2] == vertices[i].pos.z.0,
            forall|i: int|
                0 <= i < k ==> (#[trigger] normals[i])[0] == vertices[i].normal.x && normals[i][1]
                    == vertices[i].normal.y && normals[i][2] == vertices[i].normal.z,
            forall|i: int| 0 <= i < k ==> #[trigger] colors[i] == vertices[i].voxel_material.color(),
            forall|i: int| 0 <= i < k ==> (#[trigger] uvs[i])[0] == 1000 && uvs[i][1] == 1000,
        decreases vertices.len() - k,
    {
        let vertex = vertices[k];
        let position = vertex.pos.into_inners_arr();
        let normal: [i64; 3] = [vertex.normal.x, vertex.normal.y, vertex.normal.z];
        let uv: [i64; 2] = [1000, 1000];
        assert(normal[0] == vertex.normal.x && normal[1] == vertex.normal.y && normal[2]
            == vertex.normal.z);
        assert(uv[0] == 1000 && uv[1] == 1000);
        indices_vec.push(positions.len() as u32);
        positions.push(position);
        normals.push(normal);
        colors.push(vertex.voxel_material.color());
        uvs.push(uv);
        k += 1;
    }
    MeshBuffers { indices: indices_vec, positions, normals, colors, uvs }
}

} // verus!
