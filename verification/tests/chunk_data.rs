use gigagen::chunk::samplers::FlatSampler;
use gigagen::{ChunkData, Node, NodeSampler, Point3, SamplePoint};

/// Solid at one point only.
struct OnePoint(SamplePoint);

impl NodeSampler for OnePoint {
    fn weight_at(&self, point: SamplePoint) -> u16 {
        if point == self.0 {
            9
        } else {
            0
        }
    }

    fn sample(&self, point: SamplePoint) -> Node {
        Node { weight: self.weight_at(point) }
    }
}

/// Writes the lattice coordinates into the weight, for a chunk at the origin.
struct Coordinates;

impl NodeSampler for Coordinates {
    fn weight_at(&self, point: SamplePoint) -> u16 {
        let d = point.denom as i128;
        (point.x / d * 100 + point.y / d * 10 + point.z / d) as u16
    }

    fn sample(&self, point: SamplePoint) -> Node {
        Node { weight: self.weight_at(point) }
    }
}

const ORIGIN: Point3 = Point3 { x: 0, y: 0, z: 0 };

#[test]
fn density_grid_has_cube_of_axis_nodes() {
    for div in [0u8, 1, 2, 7, 30] {
        let chunk = ChunkData::new(3, ORIGIN, 10, div, &FlatSampler);
        let axis = div as usize + 2;
        assert_eq!(chunk.node_len(), axis * axis * axis);
        assert_eq!(chunk.nodes().len(), axis * axis * axis);
        assert_eq!(chunk.axis_len(), axis);
    }
}

#[test]
fn chunk_keeps_what_it_was_made_with() {
    let pos = Point3 { x: -4, y: 8, z: 15 };
    let chunk = ChunkData::new(42, pos, 16, 3, &FlatSampler);
    assert_eq!(chunk.index(), 42);
    assert_eq!(*chunk.pos(), pos);
    assert_eq!(chunk.size(), 16);
    assert_eq!(chunk.div(), 3);
}

#[test]
fn flat_sampler_is_solid_below_zero() {
    let below = SamplePoint { x: 5, y: -1, z: 5, denom: 3 };
    let at = SamplePoint { x: -5, y: 0, z: -5, denom: 3 };
    let above = SamplePoint { x: 0, y: 7, z: 0, denom: 3 };
    assert_eq!(FlatSampler.sample(below), Node { weight: 1 });
    assert_eq!(FlatSampler.sample(at), Node { weight: 0 });
    assert_eq!(FlatSampler.sample(above), Node { weight: 0 });
}

#[test]
fn nodes_are_stored_x_slowest() {
    // size 3 and div 2: nodes one unit apart, four to an axis
    let chunk = ChunkData::new(0, ORIGIN, 3, 2, &Coordinates);
    for x in 0..4usize {
        for y in 0..4usize {
            for z in 0..4usize {
                let node = chunk.get_node((x * 4 + y) * 4 + z);
                assert_eq!(node, Some(&Node { weight: (x * 100 + y * 10 + z) as u16 }));
                assert_eq!(chunk.weight_at_node(x, y, z), (x * 100 + y * 10 + z) as u16);
            }
        }
    }
}

#[test]
fn sample_points_are_fractions_of_the_chunk_size() {
    // node (1, 2, 3) of a chunk at (5, -7, 11) with size 10 and 4 divisions
    // lies at (5 + 10/5, -7 + 20/5, 11 + 30/5) = (35, -15, 85) / 5
    let wanted = SamplePoint { x: 35, y: -15, z: 85, denom: 5 };
    let chunk = ChunkData::new(0, Point3 { x: 5, y: -7, z: 11 }, 10, 4, &OnePoint(wanted));
    let hits: Vec<usize> = (0..chunk.node_len()).filter(|i| chunk.nodes()[*i].weight == 9).collect();
    assert_eq!(hits, vec![(1 * 6 + 2) * 6 + 3]);
}

#[test]
fn sample_points_do_not_overflow_at_the_rim_of_the_world() {
    let pos = Point3 { x: i64::MAX, y: i64::MIN, z: 0 };
    let wanted = SamplePoint {
        x: i64::MAX as i128 * 256 + 257 * u32::MAX as i128,
        y: i64::MIN as i128 * 256 + 257 * u32::MAX as i128,
        z: 257 * u32::MAX as i128,
        denom: 256,
    };
    let chunk = ChunkData::new(0, pos, u32::MAX, 255, &OnePoint(wanted));
    assert_eq!(chunk.node_len(), 257 * 257 * 257);
    assert_eq!(chunk.weight_at_node(256, 256, 256), 0);
    assert_eq!(chunk.weight_at_node(256, 256, 255), 0);
    let last = SamplePoint {
        x: i64::MAX as i128 * 256 + 256 * u32::MAX as i128,
        y: i64::MIN as i128 * 256 + 256 * u32::MAX as i128,
        z: 256 * u32::MAX as i128,
        denom: 256,
    };
    let chunk = ChunkData::new(0, pos, u32::MAX, 255, &OnePoint(last));
    assert_eq!(chunk.weight_at_node(256, 256, 256), 9);
}

#[test]
fn get_node_past_the_end_is_none() {
    let chunk = ChunkData::new(0, ORIGIN, 10, 0, &FlatSampler);
    assert_eq!(chunk.node_len(), 8);
    assert!(chunk.get_node(7).is_some());
    assert_eq!(chunk.get_node(8), None);
}

#[test]
fn set_node_overwrites_one_node() {
    let mut chunk = ChunkData::new(0, ORIGIN, 10, 0, &FlatSampler);
    assert!(chunk.set_node(5, Node { weight: 700 }));
    assert_eq!(chunk.get_node(5), Some(&Node { weight: 700 }));
    assert_eq!(chunk.get_node(4), Some(&Node { weight: 0 }));
    assert!(!chunk.set_node(8, Node { weight: 1 }));
    assert_eq!(chunk.node_len(), 8);
}
