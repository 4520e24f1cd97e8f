//! The mesh builders: one that builds nothing, and marching cubes.
use crate::chunk::data::{axis_nodes, lemma_node_index_bound, ChunkData, ChunkDataView};
use crate::chunk::march_tables::{
    corner_offset, corner_ray_from_edge, edge_ray, row_entry, triangulation_entry, EDGE_COUNT,
    MAX_CUBE_TRIANGLES, TRIANGULATION,
};
use crate::chunk::mesh::{ChunkMesh, MeshBuilder, Triangle};
use crate::point::{fits, vec_sub, Point3};
use vstd::prelude::*;

verus! {

/// Builds the empty mesh, whatever the lattice holds.
pub struct EmptyMeshBuilder;

impl MeshBuilder for EmptyMeshBuilder {
    fn build_mesh(&self, chunk_data: &ChunkData) -> (mesh: ChunkMesh)
        ensures
            mesh.vertices@.len() == 0,
            mesh.triangles() =~= Seq::<Triangle>::empty(),
    {
        ChunkMesh::new()
    }
}

/// No coordinate of a mesh vertex lies further from zero: `255 * 257 + 65535`.
pub const VERTEX_REACH: i64 = 131070;

/// The edges and the normal of a triangle between mesh vertices fit 64 bits.
pub proof fn lemma_mesh_triangle_fits(a: Point3, b: Point3, c: Point3)
    requires
        a.within(VERTEX_REACH as int),
        b.within(VERTEX_REACH as int),
        c.within(VERTEX_REACH as int),
    ensures
        fits(vec_sub(b@, a@)),
        fits(vec_sub(c@, a@)),
        fits((Triangle { a: a@, b: b@, c: c@ }).normal()),
{
    let u = vec_sub(b@, a@);
    let v = vec_sub(c@, a@);
    lemma_small_product(u.1, v.2);
    lemma_small_product(u.2, v.1);
    lemma_small_product(u.2, v.0);
    lemma_small_product(u.0, v.2);
    lemma_small_product(u.0, v.1);
    lemma_small_product(u.1, v.0);
}

/// The product of two differences of mesh coordinates is small.
pub proof fn lemma_small_product(p: int, q: int)
    requires
        -2 * VERTEX_REACH <= p <= 2 * VERTEX_REACH,
        -2 * VERTEX_REACH <= q <= 2 * VERTEX_REACH,
    ensures
        -0x10_0000_0000 <= p * q <= 0x10_0000_0000,
{
    assert(-262140 * 262140 <= p * q <= 262140 * 262140) by (nonlinear_arith)
        requires
            -262140 <= p <= 262140,
            -262140 <= q <= 262140,
    ;
}

/// Cubes along one axis of a chunk with `div` divisions.
pub open spec fn axis_cubes(div: u8) -> int {
    div + 1
}

/// The weights at the eight corners of cube `(x, y, z)`, by corner number.
pub open spec fn cube_weights(chunk: ChunkDataView, x: int, y: int, z: int) -> Seq<u16> {
    Seq::new(
        8,
        |c: int|
            {
                let o = corner_offset(c);
                chunk.weight(x + o.0, y + o.1, z + o.2)
            },
    )
}

/// `1` for a solid corner, `0` for an empty one.
pub open spec fn solid_bit(weight: u16) -> int {
    if weight > 0 {
        1
    } else {
        0
    }
}

/// The pattern of solid corners as a number: bit `c` is set where corner `c`
/// has a weight above zero.
pub open spec fn cube_code(weights: Seq<u16>) -> int {
    solid_bit(weights[0]) + 2 * solid_bit(weights[1]) + 4 * solid_bit(weights[2]) + 8 * solid_bit(
        weights[3],
    ) + 16 * solid_bit(weights[4]) + 32 * solid_bit(weights[5]) + 64 * solid_bit(weights[6]) + 128
        * solid_bit(weights[7])
}

/// The mesh vertex on edge `edge` of cube `(x, y, z)`: from the edge's start
/// corner, that corner's own weight over 255 along the edge.
pub open spec fn edge_vertex(weights: Seq<u16>, edge: int, x: int, y: int, z: int) -> (int, int, int) {
    let ray = edge_ray(edge);
    let w = weights[ray.corner as int];
    (
        255 * (x + ray.origin.x) + ray.dir.x * w,
        255 * (y + ray.origin.y) + ray.dir.y * w,
        255 * (z + ray.origin.z) + ray.dir.z * w,
    )
}

/// Entries `3t`, `3t + 1` and `3t + 2` of the row all name an edge.
pub open spec fn triple_present(row: u64, t: int) -> bool {
    &&& row_entry(row, 3 * t) < EDGE_COUNT
    &&& row_entry(row, 3 * t + 1) < EDGE_COUNT
    &&& row_entry(row, 3 * t + 2) < EDGE_COUNT
}

/// Triangles that the row holds from triple `t` on, up to its end.
pub open spec fn triangles_from(row: u64, t: int) -> nat
    decreases MAX_CUBE_TRIANGLES - t,
{
    if 0 <= t < MAX_CUBE_TRIANGLES && triple_present(row, t) {
        1 + triangles_from(row, t + 1)
    } else {
        0
    }
}

/// Triangle `t` of the row, placed in cube `(x, y, z)`.
pub open spec fn row_triangle(weights: Seq<u16>, row: u64, t: int, x: int, y: int, z: int) -> Triangle {
    Triangle {
        a: edge_vertex(weights, row_entry(row, 3 * t) as int, x, y, z),
        b: edge_vertex(weights, row_entry(row, 3 * t + 1) as int, x, y, z),
        c: edge_vertex(weights, row_entry(row, 3 * t + 2) as int, x, y, z),
    }
}

/// The triangles of one cube: none where all corners are empty or all are
/// solid, else those of the pattern's row.
pub open spec fn cube_triangles(weights: Seq<u16>, x: int, y: int, z: int) -> Seq<Triangle> {
    let code = cube_code(weights);
    if code == 0 || code == 255 {
        Seq::empty()
    } else {
        let row = TRIANGULATION[code];
        Seq::new(triangles_from(row, 0), |t: int| row_triangle(weights, row, t, x, y, z))
    }
}

/// The triangles of cubes `(x, y, 0)` to `(x, y, nz - 1)`.
pub open spec fn row_triangles(chunk: ChunkDataView, x: int, y: int, nz: int) -> Seq<Triangle>
    decreases nz,
{
    if nz <= 0 {
        Seq::empty()
    } else {
        row_triangles(chunk, x, y, nz - 1) + cube_triangles(
            cube_weights(chunk, x, y, nz - 1),
            x,
            y,
            nz - 1,
        )
    }
}

/// The triangles of the rows `(x, 0)` to `(x, ny - 1)`.
pub open spec fn slab_triangles(chunk: ChunkDataView, x: int, ny: int) -> Seq<Triangle>
    decreases ny,
{
    if ny <= 0 {
        Seq::empty()
    } else {
        slab_triangles(chunk, x, ny - 1) + row_triangles(chunk, x, ny - 1, axis_cubes(chunk.div))
    }
}

/// The triangles of the slabs `0` to `nx - 1`.
pub open spec fn slabs_triangles(chunk: ChunkDataView, nx: int) -> Seq<Triangle>
    decreases nx,
{
    if nx <= 0 {
        Seq::empty()
    } else {
        slabs_triangles(chunk, nx - 1) + slab_triangles(chunk, nx - 1, axis_cubes(chunk.div))
    }
}

/// The triangles of a whole chunk: cube after cube, `x` slowest, `z` fastest.
pub open spec fn chunk_triangles(chunk: ChunkDataView) -> Seq<Triangle> {
    slabs_triangles(chunk, axis_cubes(chunk.div))
}

/// A cube whose corners are all empty, or all solid, gives no triangle; and
/// only such cubes have the patterns 0 and 255.
pub proof fn lemma_uniform_cube_is_empty(weights: Seq<u16>, x: int, y: int, z: int)
    requires
        weights.len() == 8,
    ensures
        cube_code(weights) == 0 <==> (forall|c: int| 0 <= c < 8 ==> weights[c] == 0),
        cube_code(weights) == 255 <==> (forall|c: int| 0 <= c < 8 ==> weights[c] > 0),
        0 <= cube_code(weights) <= 255,
        cube_code(weights) == 0 || cube_code(weights) == 255 ==> cube_triangles(weights, x, y, z).len()
            == 0,
{
    if cube_code(weights) == 0 {
        assert forall|c: int| 0 <= c < 8 implies weights[c] == 0 by {
            assert(solid_bit(weights[c]) == 0);
        }
    }
    if cube_code(weights) == 255 {
        assert forall|c: int| 0 <= c < 8 implies weights[c] > 0 by {
            assert(solid_bit(weights[c]) == 1);
        }
    }
}

/// A cube gives at most four triangles.
pub proof fn lemma_cube_gives_at_most_four_triangles(weights: Seq<u16>, x: int, y: int, z: int)
    ensures
        cube_triangles(weights, x, y, z).len() <= MAX_CUBE_TRIANGLES,
        MAX_CUBE_TRIANGLES == 4,
{
    let row = TRIANGULATION[cube_code(weights)];
    lemma_row_ends(row, 0);
}

/// From triple `t` on, a row holds no more triangles than fit before its end.
pub proof fn lemma_row_ends(row: u64, t: int)
    requires
        0 <= t <= MAX_CUBE_TRIANGLES,
    ensures
        triangles_from(row, t) <= MAX_CUBE_TRIANGLES - t,
    decreases MAX_CUBE_TRIANGLES - t,
{
    if t < MAX_CUBE_TRIANGLES && triple_present(row, t) {
        lemma_row_ends(row, t + 1);
    }
}

/// Marching cubes.
pub struct SimpleMeshBuilder;

impl SimpleMeshBuilder {
    /// The eight corner weights of cube `(x, y, z)`.
    pub fn corner_weights(chunk_data: &ChunkData, x: usize, y: usize, z: usize) -> (weights: [u16; 8])
        requires
            chunk_data.wf(),
            x < axis_cubes(chunk_data@.div),
            y < axis_cubes(chunk_data@.div),
            z < axis_cubes(chunk_data@.div),
        ensures
            weights@ == cube_weights(chunk_data@, x as int, y as int, z as int),
    {
        let weights: [u16; 8] = [
            chunk_data.weight_at_node(x, y, z),
            chunk_data.weight_at_node(x, y, z + 1),
            chunk_data.weight_at_node(x + 1, y, z + 1),
            chunk_data.weight_at_node(x + 1, y, z),
            chunk_data.weight_at_node(x, y + 1, z),
            chunk_data.weight_at_node(x, y + 1, z + 1),
            chunk_data.weight_at_node(x + 1, y + 1, z + 1),
            chunk_data.weight_at_node(x + 1, y + 1, z),
        ];
        assert(weights@ =~= cube_weights(chunk_data@, x as int, y as int, z as int));
        weights
    }

    /// The pattern of solid corners.
    pub fn corner_code(weights: &[u16; 8]) -> (code: u8)
        ensures
            code == cube_code(weights@),
    {
        let mut code: u8 = 0;
        if weights[0] > 0 {
            code += 1;
        }
        if weights[1] > 0 {
            code += 2;
        }
        if weights[2] > 0 {
            code += 4;
        }
        if weights[3] > 0 {
            code += 8;
        }
        if weights[4] > 0 {
            code += 16;
        }
        if weights[5] > 0 {
            code += 32;
        }
        if weights[6] > 0 {
            code += 64;
        }
        if weights[7] > 0 {
            code += 128;
        }
        code
    }

    /// The mesh vertex on edge `edge` of cube `(x, y, z)`.
    pub fn vertex_on_edge(weights: &[u16; 8], edge: u8, x: usize, y: usize, z: usize) -> (v: Point3)
        requires
            edge < EDGE_COUNT,
            x <= 256,
            y <= 256,
            z <= 256,
        ensures
            v@ == edge_vertex(weights@, edge as int, x as int, y as int, z as int),
            v.within(VERTEX_REACH as int),
    {
        let ray = corner_ray_from_edge(edge);
        let w: i64 = weights[ray.corner as usize] as i64;
        assert(-65535 <= ray.dir.x * w <= 65535 && -65535 <= ray.dir.y * w <= 65535 && -65535
            <= ray.dir.z * w <= 65535) by (nonlinear_arith)
            requires
                ray.dir.within(1),
                0 <= w <= 65535,
        ;
        Point3 {
            x: 255 * (x as i64 + ray.origin.x) + ray.dir.x * w,
            y: 255 * (y as i64 + ray.origin.y) + ray.dir.y * w,
            z: 255 * (z as i64 + ray.origin.z) + ray.dir.z * w,
        }
    }

    /// Appends the triangles of cube `(x, y, z)` to the mesh.
    pub fn march_cube(mesh: &mut ChunkMesh, weights: &[u16; 8], x: usize, y: usize, z: usize)
        requires
            old(mesh).wf(),
            old(mesh).vertices@.len() + 3 * MAX_CUBE_TRIANGLES <= i32::MAX,
            x <= 256,
            y <= 256,
            z <= 256,
        ensures
            final(mesh).wf(),
            final(mesh).triangles() == old(mesh).triangles() + cube_triangles(
                weights@,
                x as int,
                y as int,
                z as int,
            ),
            final(mesh).vertices@.len() <= old(mesh).vertices@.len() + 3 * MAX_CUBE_TRIANGLES,
    {
        let code = Self::corner_code(weights);
        if code == 0 || code == 255 {
            assert(mesh.triangles() + Seq::<Triangle>::empty() =~= mesh.triangles());
            return ;
        }
        let ghost row = TRIANGULATION[code as int];
        let ghost before = mesh.triangles();
        let mut t: u8 = 0;
        let mut open_row = true;
        while open_row && t < MAX_CUBE_TRIANGLES
            invariant
                mesh.wf(),
                t <= MAX_CUBE_TRIANGLES,
                x <= 256,
                y <= 256,
                z <= 256,
                row == TRIANGULATION[code as int],
                mesh.vertices@.len() == old(mesh).vertices@.len() + 3 * t,
                old(mesh).vertices@.len() + 3 * MAX_CUBE_TRIANGLES <= i32::MAX,
                triangles_from(row, 0) == t + triangles_from(row, t as int),
                !open_row ==> triangles_from(row, t as int) == 0,
                mesh.triangles() == before + Seq::new(
                    t as nat,
                    |k: int| row_triangle(weights@, row, k, x as int, y as int, z as int),
                ),
            decreases MAX_CUBE_TRIANGLES - t + (if open_row { 1int } else { 0int }),
        {
            let e0 = triangulation_entry(code, 3 * t);
            let e1 = triangulation_entry(code, 3 * t + 1);
            let e2 = triangulation_entry(code, 3 * t + 2);
            if e0 < EDGE_COUNT && e1 < EDGE_COUNT && e2 < EDGE_COUNT {
                let a = Self::vertex_on_edge(weights, e0, x, y, z);
                let b = Self::vertex_on_edge(weights, e1, x, y, z);
                let c = Self::vertex_on_edge(weights, e2, x, y, z);
                let ghost shown = mesh.triangles();
                proof {
                    lemma_mesh_triangle_fits(a, b, c);
                }
                mesh.push_triangle(a, b, c);
                proof {
                    let tri = row_triangle(weights@, row, t as int, x as int, y as int, z as int);
                    assert(tri == (Triangle { a: a@, b: b@, c: c@ }));
                    assert(shown.push(tri) =~= before + Seq::new(
                        (t + 1) as nat,
                        |k: int| row_triangle(weights@, row, k, x as int, y as int, z as int),
                    ));
                }
                t += 1;
            } else {
                open_row = false;
            }
        }
    }
}

impl MeshBuilder for SimpleMeshBuilder {
    fn build_mesh(&self, chunk_data: &ChunkData) -> (mesh: ChunkMesh)
        ensures
            mesh.triangles() == chunk_triangles(chunk_data@),
            mesh.indices@.len() <= 12 * (axis_cubes(chunk_data@.div) * axis_cubes(chunk_data@.div)
                * axis_cubes(chunk_data@.div)),
    {
        let mut mesh = ChunkMesh::new();
        let cubes: usize = chunk_data.div() as usize + 1;
        let ghost m = cubes as int;
        let ghost chunk = chunk_data@;
        let mut x: usize = 0;
        while x < cubes
            invariant
                chunk_data.wf(),
                chunk == chunk_data@,
                m == axis_cubes(chunk.div),
                cubes == m,
                x <= cubes,
                mesh.wf(),
                mesh.vertices@.len() <= 12 * (x * m * m),
                mesh.triangles() == slabs_triangles(chunk, x as int),
            decreases cubes - x,
        {
            let ghost slabs = mesh.triangles();
            let mut y: usize = 0;
            while y < cubes
                invariant
                    chunk_data.wf(),
                    chunk == chunk_data@,
                    m == axis_cubes(chunk.div),
                    cubes == m,
                    x < cubes,
                    y <= cubes,
                    mesh.wf(),
                    mesh.vertices@.len() <= 12 * ((x * m + y) * m),
                    slabs == slabs_triangles(chunk, x as int),
                    mesh.triangles() == slabs + slab_triangles(chunk, x as int, y as int),
                decreases cubes - y,
            {
                let ghost slab = mesh.triangles();
                let mut z: usize = 0;
                while z < cubes
                    invariant
                        chunk_data.wf(),
                        chunk == chunk_data@,
                        m == axis_cubes(chunk.div),
                        cubes == m,
                        x < cubes,
                        y < cubes,
                        z <= cubes,
                        mesh.wf(),
                        mesh.vertices@.len() <= 12 * ((x * m + y) * m + z),
                        mesh.triangles() == slab + row_triangles(chunk, x as int, y as int, z as int),
                    decreases cubes - z,
                {
                    proof {
                        lemma_node_index_bound(m, x as int, y as int, z as int);
                        assert(m * m * m <= 256 * 256 * 256) by (nonlinear_arith)
                            requires
                                0 < m <= 256,
                        ;
                    }
                    let weights = Self::corner_weights(chunk_data, x, y, z);
                    let ghost row = mesh.triangles();
                    Self::march_cube(&mut mesh, &weights, x, y, z);
                    proof {
                        let cube = cube_triangles(weights@, x as int, y as int, z as int);
                        assert(row + cube =~= slab + row_triangles(chunk, x as int, y as int, z + 1)) by {
                            assert(row_triangles(chunk, x as int, y as int, z + 1) == row_triangles(
                                chunk,
                                x as int,
                                y as int,
                                z as int,
                            ) + cube);
                        }
                    }
                    z += 1;
                }
                proof {
                    assert((x * m + y) * m + m == (x * m + (y + 1)) * m) by (nonlinear_arith);
                    assert(mesh.triangles() =~= slabs + slab_triangles(chunk, x as int, y + 1)) by {
                        assert(slab_triangles(chunk, x as int, y + 1) == slab_triangles(
                            chunk,
                            x as int,
                            y as int,
                        ) + row_triangles(chunk, x as int, y as int, m));
                    }
                }
                y += 1;
            }
            proof {
                assert((x * m + m) * m == (x + 1) * m * m) by (nonlinear_arith);
                assert(slabs_triangles(chunk, x + 1) == slabs_triangles(chunk, x as int) + slab_triangles(
                    chunk,
                    x as int,
                    m,
                ));
            }
            x += 1;
        }
        mesh
    }
}

} // verus!
