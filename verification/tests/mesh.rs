use gigagen::chunk::march_tables::{corner_ray_from_edge, triangulation_entry};
use gigagen::chunk::samplers::FlatSampler;
use gigagen::{
    ChunkData, ChunkMesh, EmptyMeshBuilder, MeshBuilder, Node, NodeSampler, Point3, SamplePoint,
    SimpleMeshBuilder,
};

/// The same weight everywhere.
struct Uniform(u16);

impl NodeSampler for Uniform {
    fn weight_at(&self, _point: SamplePoint) -> u16 {
        self.0
    }

    fn sample(&self, point: SamplePoint) -> Node {
        Node { weight: self.weight_at(point) }
    }
}

/// Solid at the chunk's first node only.
struct FirstNode(u16);

impl NodeSampler for FirstNode {
    fn weight_at(&self, point: SamplePoint) -> u16 {
        if point.x == 0 && point.y == 0 && point.z == 0 {
            self.0
        } else {
            0
        }
    }

    fn sample(&self, point: SamplePoint) -> Node {
        Node { weight: self.weight_at(point) }
    }
}

/// A field without symmetry, solid on about two nodes in three.
struct Speckle;

impl NodeSampler for Speckle {
    fn weight_at(&self, point: SamplePoint) -> u16 {
        let h = (point.x * 7 + point.y * 13 + point.z * 29).rem_euclid(97);
        if h % 3 == 0 {
            0
        } else {
            (h * 5) as u16
        }
    }

    fn sample(&self, point: SamplePoint) -> Node {
        Node { weight: self.weight_at(point) }
    }
}

const ORIGIN: Point3 = Point3 { x: 0, y: 0, z: 0 };

fn cross(u: Point3, v: Point3) -> Point3 {
    Point3 { x: u.y * v.z - u.z * v.y, y: u.z * v.x - u.x * v.z, z: u.x * v.y - u.y * v.x }
}

fn minus(u: Point3, v: Point3) -> Point3 {
    Point3 { x: u.x - v.x, y: u.y - v.y, z: u.z - v.z }
}

fn assert_unshared(mesh: &ChunkMesh) {
    assert_eq!(mesh.vertices.len(), mesh.indices.len());
    assert_eq!(mesh.normals.len(), mesh.indices.len());
    assert_eq!(mesh.indices.len() % 3, 0);
    for (i, index) in mesh.indices.iter().enumerate() {
        assert_eq!(*index, i as i32);
    }
    for t in 0..mesh.vertices.len() / 3 {
        let (a, b, c) = (mesh.vertices[3 * t], mesh.vertices[3 * t + 1], mesh.vertices[3 * t + 2]);
        let normal = cross(minus(b, a), minus(c, a));
        assert_eq!(mesh.normals[3 * t], normal);
        assert_eq!(mesh.normals[3 * t + 1], normal);
        assert_eq!(mesh.normals[3 * t + 2], normal);
    }
}

#[test]
fn new_mesh_is_empty() {
    let mesh = ChunkMesh::new();
    assert!(mesh.vertices.is_empty() && mesh.normals.is_empty() && mesh.indices.is_empty());
    let mesh = ChunkMesh::default();
    assert!(mesh.vertices.is_empty() && mesh.normals.is_empty() && mesh.indices.is_empty());
}

#[test]
fn empty_builder_builds_nothing() {
    let chunk = ChunkData::new(0, ORIGIN, 10, 3, &Speckle);
    let mesh = EmptyMeshBuilder.build_mesh(&chunk);
    assert!(mesh.vertices.is_empty() && mesh.normals.is_empty() && mesh.indices.is_empty());
}

#[test]
fn empty_and_solid_cubes_yield_no_triangles() {
    for weight in [0u16, 1, 255, u16::MAX] {
        let chunk = ChunkData::new(0, ORIGIN, 10, 2, &Uniform(weight));
        let mesh = SimpleMeshBuilder.build_mesh(&chunk);
        assert!(mesh.vertices.is_empty() && mesh.normals.is_empty() && mesh.indices.is_empty());
    }
    assert_eq!(SimpleMeshBuilder::corner_code(&[0; 8]), 0);
    assert_eq!(SimpleMeshBuilder::corner_code(&[3, 1, 9, 65535, 2, 2, 1, 7]), 255);
}

#[test]
fn corner_code_sets_one_bit_per_solid_corner() {
    assert_eq!(SimpleMeshBuilder::corner_code(&[1, 0, 0, 0, 0, 0, 0, 0]), 1);
    assert_eq!(SimpleMeshBuilder::corner_code(&[0, 0, 0, 0, 0, 0, 0, 1]), 128);
    assert_eq!(SimpleMeshBuilder::corner_code(&[5, 0, 6, 0, 0, 7, 0, 0]), 0b0010_0101);
    assert_eq!(SimpleMeshBuilder::corner_code(&[1, 2, 3, 4, 0, 0, 0, 0]), 15);
}

#[test]
fn corner_weights_follow_the_corner_order() {
    let chunk = ChunkData::new(0, ORIGIN, 3, 2, &Speckle);
    let w = |x: usize, y: usize, z: usize| chunk.weight_at_node(x, y, z);
    assert_eq!(
        SimpleMeshBuilder::corner_weights(&chunk, 1, 0, 2),
        [w(1, 0, 2), w(1, 0, 3), w(2, 0, 3), w(2, 0, 2), w(1, 1, 2), w(1, 1, 3), w(2, 1, 3), w(2, 1, 2)]
    );
}

#[test]
fn one_solid_corner_gives_one_triangle() {
    let chunk = ChunkData::new(0, ORIGIN, 10, 0, &FirstNode(255));
    let mesh = SimpleMeshBuilder.build_mesh(&chunk);
    assert_eq!(
        mesh.vertices,
        vec![Point3 { x: 0, y: 0, z: 255 }, Point3 { x: 0, y: 255, z: 0 }, Point3 { x: 255, y: 0, z: 0 }]
    );
    let normal = Point3 { x: -65025, y: -65025, z: -65025 };
    assert_eq!(mesh.normals, vec![normal, normal, normal]);
    assert_eq!(mesh.indices, vec![0, 1, 2]);
}

#[test]
fn a_vertex_moves_with_the_weight_of_its_own_corner() {
    // the corner's weight over 255 along the edge, also past the edge's end
    let chunk = ChunkData::new(0, ORIGIN, 10, 0, &FirstNode(510));
    let mesh = SimpleMeshBuilder.build_mesh(&chunk);
    assert_eq!(
        mesh.vertices,
        vec![Point3 { x: 0, y: 0, z: 510 }, Point3 { x: 0, y: 510, z: 0 }, Point3 { x: 255, y: 0, z: 0 }]
    );
}

#[test]
fn cubes_are_placed_by_their_coordinates() {
    let weights = [0, 0, 0, 0, 0, 0, 51, 0];
    let mut mesh = ChunkMesh::new();
    SimpleMeshBuilder::march_cube(&mut mesh, &weights, 2, 0, 1);
    // corner 6 alone: edges 5, 6 and 10 meet in it
    assert_eq!(SimpleMeshBuilder::corner_code(&weights), 64);
    assert_eq!(mesh.vertices.len(), 3);
    let mut got = mesh.vertices.clone();
    got.sort_by_key(|v| (v.x, v.y, v.z));
    // edge 5 runs from corner 5 (weight 0), edge 10 from corner 2 (weight 0), edge 6 from corner 6
    let mut wanted = vec![
        Point3 { x: 255 * 2, y: 255, z: 255 * 2 },
        Point3 { x: 255 * 3, y: 0, z: 255 * 2 },
        Point3 { x: 255 * 3, y: 255, z: 255 * 2 - 51 },
    ];
    wanted.sort_by_key(|v| (v.x, v.y, v.z));
    assert_eq!(got, wanted);
    assert_unshared(&mesh);
}

#[test]
fn mesh_has_one_index_and_one_normal_per_vertex() {
    for div in [0u8, 1, 4, 9] {
        let chunk = ChunkData::new(0, Point3 { x: 3, y: -20, z: 8 }, 11, div, &Speckle);
        let mesh = SimpleMeshBuilder.build_mesh(&chunk);
        assert_unshared(&mesh);
        if div > 0 {
            assert!(!mesh.vertices.is_empty());
        }
    }
}

#[test]
fn mesh_follows_the_cubes_in_order() {
    let chunk = ChunkData::new(0, ORIGIN, 5, 4, &Speckle);
    let built = SimpleMeshBuilder.build_mesh(&chunk);
    let mut by_hand = ChunkMesh::new();
    for x in 0..5usize {
        for y in 0..5usize {
            for z in 0..5usize {
                let weights = SimpleMeshBuilder::corner_weights(&chunk, x, y, z);
                SimpleMeshBuilder::march_cube(&mut by_hand, &weights, x, y, z);
            }
        }
    }
    assert_eq!(built.vertices, by_hand.vertices);
    assert_eq!(built.normals, by_hand.normals);
    assert_eq!(built.indices, by_hand.indices);
}

#[test]
fn flat_half_space_gives_a_level_surface_next_to_zero() {
    // nodes at y = -10, 0 and 10: only the lowest layer is solid
    let chunk = ChunkData::new(0, Point3 { x: 0, y: -10, z: 0 }, 20, 1, &FlatSampler);
    let mesh = SimpleMeshBuilder.build_mesh(&chunk);
    assert_unshared(&mesh);
    // two triangles for each of the four cubes between y = -10 and y = 0
    assert_eq!(mesh.vertices.len(), 4 * 2 * 3);
    for v in &mesh.vertices {
        // one 255th of the way up from the solid layer, inside the cubes that reach y = 0
        assert_eq!(v.y, 1);
        assert!(0 <= v.x && v.x <= 2 * 255 && 0 <= v.z && v.z <= 2 * 255);
    }
    for n in &mesh.normals {
        assert_eq!((n.x, n.z), (0, 0));
        assert_ne!(n.y, 0);
    }
}

#[test]
fn every_row_names_the_edges_that_are_cut() {
    let ends = [(0, 1), (1, 2), (2, 3), (3, 0), (4, 5), (5, 6), (6, 7), (7, 4), (0, 4), (1, 5), (2, 6), (3, 7)];
    for code in 0..=255u8 {
        let mut used = [false; 12];
        let mut k = 0u8;
        while k < 16 && triangulation_entry(code, k) < 12 {
            used[triangulation_entry(code, k) as usize] = true;
            k += 1;
        }
        assert_eq!(k % 3, 0, "row {code}");
        assert!(k <= 12, "row {code}");
        for (edge, (a, b)) in ends.iter().enumerate() {
            let cut = (code >> a) & 1 != (code >> b) & 1;
            assert_eq!(used[edge], cut, "row {code}, edge {edge}");
        }
    }
}

#[test]
fn first_rows_of_the_table() {
    let row = |code: u8| -> Vec<u8> { (0..16u8).map(|k| triangulation_entry(code, k)).take_while(|e| *e < 12).collect() };
    assert_eq!(row(0), Vec::<u8>::new());
    assert_eq!(row(1), vec![0, 8, 3]);
    assert_eq!(row(2), vec![0, 1, 9]);
    assert_eq!(row(254), vec![0, 3, 8]);
    assert_eq!(row(255), Vec::<u8>::new());
    assert_eq!(row(15).len(), 6);
}

#[test]
fn rays_run_along_the_edges() {
    let corners: [(i64, i64, i64); 8] =
        [(0, 0, 0), (0, 0, 1), (1, 0, 1), (1, 0, 0), (0, 1, 0), (0, 1, 1), (1, 1, 1), (1, 1, 0)];
    let ends = [(0, 1), (1, 2), (2, 3), (3, 0), (4, 5), (5, 6), (6, 7), (7, 4), (0, 4), (1, 5), (2, 6), (3, 7)];
    for (edge, (a, b)) in ends.iter().enumerate() {
        let ray = corner_ray_from_edge(edge as u8);
        let (from, to) = (corners[*a], corners[*b]);
        assert_eq!(ray.corner as usize, *a);
        assert_eq!((ray.origin.x, ray.origin.y, ray.origin.z), from);
        assert_eq!((ray.dir.x, ray.dir.y, ray.dir.z), (to.0 - from.0, to.1 - from.1, to.2 - from.2));
    }
}

#[test]
fn every_row_is_a_surface_that_ends_on_the_faces_only() {
    let corners: [(i64, i64, i64); 8] =
        [(0, 0, 0), (0, 0, 1), (1, 0, 1), (1, 0, 0), (0, 1, 0), (0, 1, 1), (1, 1, 1), (1, 1, 0)];
    let ends = [(0, 1), (1, 2), (2, 3), (3, 0), (4, 5), (5, 6), (6, 7), (7, 4), (0, 4), (1, 5), (2, 6), (3, 7)];
    let axis = |c: usize, a: usize| [corners[c].0, corners[c].1, corners[c].2][a];
    let share_a_face = |e: usize, f: usize| {
        (0..3).any(|a| {
            let v = axis(ends[e].0, a);
            v == axis(ends[e].1, a) && v == axis(ends[f].0, a) && v == axis(ends[f].1, a)
        })
    };
    for code in 0..=255u8 {
        let row: Vec<usize> =
            (0..16u8).map(|k| triangulation_entry(code, k) as usize).take_while(|e| *e < 12).collect();
        let mut sides = Vec::new();
        for tri in row.chunks(3) {
            assert!(tri[0] != tri[1] && tri[1] != tri[2] && tri[2] != tri[0], "row {code}");
            sides.extend([(tri[0], tri[1]), (tri[1], tri[2]), (tri[2], tri[0])]);
        }
        for (i, side) in sides.iter().enumerate() {
            // no side twice the same way round
            assert!(!sides[i + 1..].contains(side), "row {code}");
            // a side inside the cube is shared by two triangles; the others lie on a face
            assert!(sides.contains(&(side.1, side.0)) || share_a_face(side.0, side.1), "row {code}");
        }
    }
}

#[test]
fn a_cube_gives_at_most_four_triangles() {
    for code in 1..255u8 {
        let mut weights = [0u16; 8];
        for corner in 0..8 {
            if (code >> corner) & 1 == 1 {
                weights[corner] = 100 + corner as u16;
            }
        }
        assert_eq!(SimpleMeshBuilder::corner_code(&weights), code);
        let mut mesh = ChunkMesh::new();
        SimpleMeshBuilder::march_cube(&mut mesh, &weights, 0, 0, 0);
        assert!(!mesh.indices.is_empty(), "pattern {code}");
        assert!(mesh.indices.len() <= 12, "pattern {code}");
        assert_unshared(&mesh);
    }
}

#[test]
fn five_solid_corners_take_the_row_of_the_three_empty_ones() {
    let row = |code: u8| -> Vec<u8> { (0..16u8).map(|k| triangulation_entry(code, k)).take_while(|e| *e < 12).collect() };
    // corners 0, 2, 3, 4 and 5 solid; corners 1, 6 and 7 empty
    let solid = row(0b0011_1101);
    let empty = row(0b1100_0010);
    assert_eq!(solid.len(), 9);
    assert_eq!(empty.len(), 9);
    for (s, e) in solid.chunks(3).zip(empty.chunks(3)) {
        assert_eq!(s, &[e[0], e[2], e[1]]);
    }
    let chunk_indices = {
        let mut mesh = ChunkMesh::new();
        SimpleMeshBuilder::march_cube(&mut mesh, &[9, 0, 9, 9, 9, 9, 0, 0], 0, 0, 0);
        mesh.indices.len()
    };
    assert_eq!(chunk_indices, 9);
}

#[test]
fn mesh_has_at_most_twelve_indices_per_cube() {
    for div in [0u8, 1, 3, 6] {
        let chunk = ChunkData::new(0, ORIGIN, 9, div, &Speckle);
        let mesh = SimpleMeshBuilder.build_mesh(&chunk);
        let cubes = (div as usize + 1).pow(3);
        assert!(mesh.indices.len() <= 12 * cubes);
    }
}
