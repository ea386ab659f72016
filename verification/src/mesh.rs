//! Triangle meshes: what a tessellator hands over, and the vertex and index
//! buffers that a bucket accumulates.

use crate::geometry::{Color, DeviceRect, MeshPoint};
use crate::records::Vertex;
use lyon::lyon_tessellation::VertexBuffers;
use vstd::prelude::*;

verus! {

/// `lyon_tessellation::VertexBuffers`, the structure that a tessellator
/// writes to: a list of vertices and a list of indices, both public.
#[verifier::external_type_specification]
#[verifier::reject_recursive_types(OutputVertex)]
#[verifier::reject_recursive_types(OutputIndex)]
pub struct ExVertexBuffers<OutputVertex, OutputIndex>(VertexBuffers<OutputVertex, OutputIndex>);

/// The output of one tessellation: positions in device space, in
/// thousandths of a device unit, and a list of triangles, three indices
/// into the positions each.
pub type Triangles = VertexBuffers<MeshPoint, u32>;

/// Vertex and index buffers of a bucket.
pub type Mesh = VertexBuffers<Vertex, u32>;

pub struct MeshView {
    pub vertices: Seq<Vertex>,
    pub indices: Seq<u32>,
}

/// Every index points at one of `n` vertices.
pub open spec fn indices_within(indices: Seq<u32>, n: int) -> bool {
    forall|i: int| 0 <= i < indices.len() ==> (#[trigger] indices[i]) < n
}

/// `len` positions, each stamped with the same color, depth and clip.
pub open spec fn stamped(
    positions: Seq<MeshPoint>,
    color: Color,
    depth: u32,
    clip: DeviceRect,
) -> Seq<Vertex> {
    Seq::new(positions.len(), |i: int| Vertex { pos: positions[i], color, depth, clip })
}

/// Each index moved up by `base`.
pub open spec fn rebased(indices: Seq<u32>, base: int) -> Seq<u32> {
    Seq::new(indices.len(), |i: int| (indices[i] + base) as u32)
}

/// The indices of `tri` come in threes and each points at a position.
pub open spec fn triangle_list(tri: Triangles) -> bool {
    &&& tri.indices@.len() % 3 == 0
    &&& indices_within(tri.indices@, tri.vertices@.len() as int)
}

/// Checks that `tri` describes triangles over its positions.
pub fn is_triangle_list(tri: &Triangles) -> (r: bool)
    ensures
        r == triangle_list(*tri),
{
    if tri.indices.len() % 3 != 0 {
        return false;
    }
    let n = tri.vertices.len();
    let mut i: usize = 0;
    while i < tri.indices.len()
        invariant
            i <= tri.indices@.len(),
            n == tri.vertices@.len(),
            forall|j: int| 0 <= j < i ==> (#[trigger] tri.indices@[j]) < n,
        decreases tri.indices@.len() - i,
    {
        if tri.indices[i] as usize >= n {
            return false;
        }
        i += 1;
    }
    true
}

/// The vertices and indices of a mesh.
pub open spec fn mesh_view(mesh: Mesh) -> MeshView {
    MeshView { vertices: mesh.vertices@, indices: mesh.indices@ }
}

impl MeshView {
    pub open spec fn empty() -> MeshView {
        MeshView { vertices: Seq::empty(), indices: Seq::empty() }
    }

    /// Every index points at a vertex, and the vertices can be counted in a
    /// `u32`.
    pub open spec fn wf(self) -> bool {
        &&& self.vertices.len() <= u32::MAX
        &&& indices_within(self.indices, self.vertices.len() as int)
    }

    /// Whether `count` more vertices can still be indexed.
    pub open spec fn has_room(self, count: nat) -> bool {
        self.vertices.len() + count <= u32::MAX
    }

    /// The mesh with `tri` appended: its positions stamped, its indices moved
    /// up by the number of vertices already there.
    pub open spec fn append(
        self,
        tri: Triangles,
        color: Color,
        depth: u32,
        clip: DeviceRect,
    ) -> MeshView {
        MeshView {
            vertices: self.vertices + stamped(tri.vertices@, color, depth, clip),
            indices: self.indices + rebased(tri.indices@, self.vertices.len() as int),
        }
    }
}

/// A mesh without vertices.
pub fn empty_mesh() -> (m: Mesh)
    ensures
        mesh_view(m) == MeshView::empty(),
        mesh_view(m).wf(),
{
    VertexBuffers { vertices: Vec::new(), indices: Vec::new() }
}

/// Takes all vertices and indices out of `mesh`.
pub fn clear_mesh(mesh: &mut Mesh)
    ensures
        mesh_view(*final(mesh)) == MeshView::empty(),
        mesh_view(*final(mesh)).wf(),
{
    mesh.vertices.clear();
    mesh.indices.clear();
}

/// Appends `tri` to `mesh`, as a tessellator that writes to `mesh` would:
/// the positions stamped, the indices moved up by the number of vertices
/// already there. Where the vertices would no longer be countable in a
/// `u32`, the mesh stays as it is and the result is `false`.
pub fn append(mesh: &mut Mesh, tri: &Triangles, color: Color, depth: u32, clip: DeviceRect) -> (done:
    bool)
    requires
        mesh_view(*old(mesh)).wf(),
        triangle_list(*tri),
    ensures
        done == mesh_view(*old(mesh)).has_room(tri.vertices@.len()),
        done ==> mesh_view(*final(mesh)) == mesh_view(*old(mesh)).append(*tri, color, depth, clip),
        !done ==> mesh_view(*final(mesh)) == mesh_view(*old(mesh)),
        mesh_view(*final(mesh)).wf(),
{
    let base = mesh.vertices.len();
    let count = tri.vertices.len();
    if count > 0xffff_ffff || base > 0xffff_ffff - count {
        return false;
    }
    let ghost before = mesh_view(*mesh);
    let mut i: usize = 0;
    while i < count
        invariant
            i <= count,
            count == tri.vertices@.len(),
            base == before.vertices.len(),
            base + count <= u32::MAX,
            mesh.indices@ == before.indices,
            mesh.vertices@ == before.vertices + stamped(
                tri.vertices@.take(i as int),
                color,
                depth,
                clip,
            ),
        decreases count - i,
    {
        mesh.vertices.push(Vertex { pos: tri.vertices[i], color, depth, clip });
        assert(tri.vertices@.take(i + 1) == tri.vertices@.take(i as int).push(
            tri.vertices@[i as int],
        ));
        i += 1;
    }
    assert(tri.vertices@.take(count as int) == tri.vertices@);
    let n = tri.indices.len();
    let mut j: usize = 0;
    while j < n
        invariant
            j <= n,
            n == tri.indices@.len(),
            base == before.vertices.len(),
            base + count <= u32::MAX,
            count == tri.vertices@.len(),
            triangle_list(*tri),
            mesh.vertices@ == before.vertices + stamped(tri.vertices@, color, depth, clip),
            mesh.indices@ == before.indices + rebased(
                tri.indices@.take(j as int),
                base as int,
            ),
        decreases n - j,
    {
        let idx = tri.indices[j];
        assert(idx < count);
        mesh.indices.push(idx + base as u32);
        assert(tri.indices@.take(j + 1) == tri.indices@.take(j as int).push(
            tri.indices@[j as int],
        ));
        j += 1;
    }
    assert(tri.indices@.take(n as int) == tri.indices@);
    assert(mesh_view(*mesh).wf()) by {
        let total = mesh.vertices@.len() as int;
        assert forall|k: int| 0 <= k < mesh.indices@.len() implies (
        #[trigger] mesh.indices@[k]) < total by {
            if k >= before.indices.len() {
                let m = k - before.indices.len();
                assert(tri.indices@[m] < count);
            }
        }
    }
    true
}

} // verus!
