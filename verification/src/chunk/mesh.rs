//! Triangle meshes and what builds them.
use crate::chunk::data::ChunkData;
use crate::point::{fits, vec_cross, vec_sub, Point3};
use vstd::prelude::*;

verus! {

/// Three corners, in winding order.
pub struct Triangle {
    pub a: (int, int, int),
    pub b: (int, int, int),
    pub c: (int, int, int),
}

impl Triangle {
    /// The normal of the face: `(b - a) x (c - a)`, not scaled to unit length.
    pub open spec fn normal(self) -> (int, int, int) {
        vec_cross(vec_sub(self.b, self.a), vec_sub(self.c, self.a))
    }
}

/// A flat-shaded mesh. Coordinates are local to the chunk and counted in
/// 255ths of the chunk's size.
pub struct ChunkMesh {
    pub vertices: Vec<Point3>,
    pub normals: Vec<Point3>,
    pub indices: Vec<i32>,
}

impl ChunkMesh {
    /// Triangle `t` of the mesh.
    pub open spec fn triangle(&self, t: int) -> Triangle {
        Triangle { a: self.vertices@[3 * t]@, b: self.vertices@[3 * t + 1]@, c: self.vertices@[3 * t + 2]@ }
    }

    /// The triangles of the mesh, in order.
    pub open spec fn triangles(&self) -> Seq<Triangle> {
        Seq::new((self.vertices@.len() / 3) as nat, |t: int| self.triangle(t))
    }

    /// No vertex is shared: vertices, normals and indices come three to a
    /// triangle, index `i` names vertex `i`, and each vertex carries the
    /// normal of its own triangle.
    pub open spec fn wf(&self) -> bool {
        &&& self.vertices@.len() == self.indices@.len()
        &&& self.normals@.len() == self.indices@.len()
        &&& self.indices@.len() % 3 == 0
        &&& forall|i: int| 0 <= i < self.indices@.len() ==> #[trigger] self.indices@[i] == i
        &&& forall|i: int|
            0 <= i < self.normals@.len() ==> (#[trigger] self.normals@[i])@ == self.triangle(i / 3).normal()
    }

    /// The mesh without a triangle.
    pub fn new() -> (mesh: Self)
        ensures
            mesh.wf(),
            mesh.vertices@.len() == 0,
            mesh.triangles() =~= Seq::<Triangle>::empty(),
    {
        ChunkMesh { vertices: Vec::new(), normals: Vec::new(), indices: Vec::new() }
    }

    /// Appends the triangle `a`, `b`, `c` with its normal, where the normal
    /// and the two edges that it is made of fit 64 bits.
    pub fn push_triangle(&mut self, a: Point3, b: Point3, c: Point3)
        requires
            old(self).wf(),
            old(self).vertices@.len() + 3 <= i32::MAX,
            fits(vec_sub(b@, a@)),
            fits(vec_sub(c@, a@)),
            fits((Triangle { a: a@, b: b@, c: c@ }).normal()),
        ensures
            final(self).wf(),
            final(self).vertices@.len() == old(self).vertices@.len() + 3,
            final(self).triangles() == old(self).triangles().push(Triangle { a: a@, b: b@, c: c@ }),
    {
        let normal = b.minus(a).cross(c.minus(a));
        let count: usize = self.vertices.len();
        let first: i32 = count as i32;
        self.vertices.push(a);
        self.vertices.push(b);
        self.vertices.push(c);
        self.normals.push(normal);
        self.normals.push(normal);
        self.normals.push(normal);
        self.indices.push(first);
        self.indices.push(first + 1);
        self.indices.push(first + 2);
        proof {
            let t = (count / 3) as int;
            assert(count == 3 * t);
            assert forall|k: int| 0 <= k < t implies #[trigger] self.triangle(k) == old(self).triangle(k) by {
                assert(self.vertices@[3 * k] == old(self).vertices@[3 * k]);
                assert(self.vertices@[3 * k + 1] == old(self).vertices@[3 * k + 1]);
                assert(self.vertices@[3 * k + 2] == old(self).vertices@[3 * k + 2]);
            }
            assert(self.triangle(t) == (Triangle { a: a@, b: b@, c: c@ }));
            assert forall|i: int| 0 <= i < self.normals@.len() implies (#[trigger] self.normals@[i])@
                == self.triangle(i / 3).normal() by {
                if i < count {
                    assert(self.normals@[i] == old(self).normals@[i]);
                    assert(self.triangle(i / 3) == old(self).triangle(i / 3));
                } else {
                    assert(i / 3 == t);
                }
            }
            assert(self.triangles() =~= old(self).triangles().push(Triangle { a: a@, b: b@, c: c@ }));
        }
    }
}

impl Default for ChunkMesh {
    fn default() -> (mesh: Self)
        ensures
            mesh.wf(),
            mesh.vertices@.len() == 0,
    {
        ChunkMesh::new()
    }
}

/// Something that turns a density lattice into a mesh.
pub trait MeshBuilder {
    fn build_mesh(&self, chunk_data: &ChunkData) -> (mesh: ChunkMesh)
        requires
            chunk_data.wf(),
        ensures
            mesh.wf(),
    ;
}

} // verus!
