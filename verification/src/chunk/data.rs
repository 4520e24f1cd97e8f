//! The density lattice of one chunk.
use crate::point::Point3;
use vstd::prelude::*;

verus! {

/// One sample of the density field: `0` is empty, anything above is solid.
#[derive(Clone, Copy, Debug, PartialEq, Eq, Structural)]
pub struct Node {
    pub weight: u16,
}

/// The point `(x / denom, y / denom, z / denom)` in world units.
#[derive(Clone, Copy, Debug, PartialEq, Eq, Structural)]
pub struct SamplePoint {
    pub x: i128,
    pub y: i128,
    pub z: i128,
    pub denom: u16,
}

/// A density field. `sample` is a function of the point alone: `weight_at`
/// names that function, and an implementation computes the same value in both.
pub trait NodeSampler {
    spec fn weight_at(&self, point: SamplePoint) -> u16;

    fn sample(&self, point: SamplePoint) -> (node: Node)
        requires
            point.denom > 0,
        ensures
            node.weight == self.weight_at(point),
    ;
}

/// Nodes along one axis of a chunk with `div` divisions: one cube more than
/// divisions, and one node more than cubes.
pub open spec fn axis_nodes(div: u8) -> int {
    div + 2
}

/// Place of node `(x, y, z)` in the node sequence: `x` varies slowest.
pub open spec fn node_index(axis: int, x: int, y: int, z: int) -> int {
    (x * axis + y) * axis + z
}

/// Lattice coordinates of the node stored at place `i`.
pub open spec fn node_coords(axis: int, i: int) -> (int, int, int) {
    (i / (axis * axis), (i / axis) % axis, i % axis)
}

/// Where node `(x, y, z)` of a chunk lies: `pos + (x, y, z) * size / (div + 1)`.
pub open spec fn sample_point(pos: Point3, size: u32, div: u8, x: int, y: int, z: int) -> SamplePoint {
    SamplePoint {
        x: (pos.x * (div + 1) + x * size) as i128,
        y: (pos.y * (div + 1) + y * size) as i128,
        z: (pos.z * (div + 1) + z * size) as i128,
        denom: (div + 1) as u16,
    }
}

/// Where the node stored at place `i` lies.
pub open spec fn sample_point_at(pos: Point3, size: u32, div: u8, i: int) -> SamplePoint {
    let c = node_coords(axis_nodes(div), i);
    sample_point(pos, size, div, c.0, c.1, c.2)
}

/// Every node of the lattice has a place below `axis^3`.
pub proof fn lemma_node_index_bound(axis: int, x: int, y: int, z: int)
    requires
        0 <= x < axis,
        0 <= y < axis,
        0 <= z < axis,
    ensures
        0 <= node_index(axis, x, y, z) < axis * axis * axis,
{
    assert(0 <= x * axis + y <= (axis - 1) * axis + (axis - 1)) by (nonlinear_arith)
        requires
            0 <= x < axis,
            0 <= y < axis,
    ;
    let r = x * axis + y;
    assert(0 <= r * axis + z < axis * axis * axis) by (nonlinear_arith)
        requires
            0 <= r <= (axis - 1) * axis + (axis - 1),
            0 <= z < axis,
    ;
}

/// `node_coords` undoes `node_index`.
pub proof fn lemma_node_coords_of_index(axis: int, x: int, y: int, z: int)
    requires
        0 <= x < axis,
        0 <= y < axis,
        0 <= z < axis,
    ensures
        node_coords(axis, node_index(axis, x, y, z)) == (x, y, z),
{
    let r = x * axis + y;
    let i = r * axis + z;
    vstd::arithmetic::div_mod::lemma_fundamental_div_mod_converse(i, axis, r, z);
    vstd::arithmetic::div_mod::lemma_fundamental_div_mod_converse(r, axis, x, y);
    assert(i == x * (axis * axis) + (y * axis + z)) by (nonlinear_arith)
        requires
            i == (x * axis + y) * axis + z,
    ;
    assert(0 <= y * axis + z < axis * axis) by (nonlinear_arith)
        requires
            0 <= y < axis,
            0 <= z < axis,
    ;
    vstd::arithmetic::div_mod::lemma_fundamental_div_mod_converse(i, axis * axis, x, y * axis + z);
}

/// `node_index` undoes `node_coords`, and the coordinates of a place below
/// `axis^3` lie on the lattice.
pub proof fn lemma_node_index_of_coords(axis: int, i: int)
    requires
        0 < axis,
        0 <= i < axis * axis * axis,
    ensures
        ({
            let c = node_coords(axis, i);
            &&& 0 <= c.0 < axis
            &&& 0 <= c.1 < axis
            &&& 0 <= c.2 < axis
            &&& node_index(axis, c.0, c.1, c.2) == i
        }),
{
    let r = i / axis;
    vstd::arithmetic::div_mod::lemma_fundamental_div_mod(i, axis);
    vstd::arithmetic::div_mod::lemma_fundamental_div_mod(r, axis);
    vstd::arithmetic::div_mod::lemma_mod_bound(i, axis);
    vstd::arithmetic::div_mod::lemma_mod_bound(r, axis);
    assert(0 <= r < axis * axis) by (nonlinear_arith)
        requires
            i == axis * r + i % axis,
            0 <= i % axis < axis,
            0 <= i < axis * axis * axis,
            0 < axis,
    ;
    let x = r / axis;
    assert(0 <= x < axis) by (nonlinear_arith)
        requires
            r == axis * x + r % axis,
            0 <= r % axis < axis,
            0 <= r < axis * axis,
            0 < axis,
    ;
    assert(axis * r == r * axis && axis * x == x * axis) by (nonlinear_arith);
    lemma_node_coords_of_index(axis, x, r % axis, i % axis);
}

/// What a [`ChunkData`] holds.
pub struct ChunkDataView {
    pub index: usize,
    pub nodes: Seq<Node>,
    pub pos: Point3,
    pub size: u32,
    pub div: u8,
}

impl ChunkDataView {
    /// Every node holds what `sampler` gives at the node's place.
    pub open spec fn sampled_from<S: NodeSampler>(self, sampler: &S) -> bool {
        forall|i: int|
            0 <= i < self.nodes.len() ==> (#[trigger] self.nodes[i]).weight == sampler.weight_at(
                sample_point_at(self.pos, self.size, self.div, i),
            )
    }

    /// Weight of node `(x, y, z)`.
    pub open spec fn weight(self, x: int, y: int, z: int) -> u16 {
        self.nodes[node_index(axis_nodes(self.div), x, y, z)].weight
    }
}

/// The density lattice of one chunk: `(div + 2)^3` nodes, spaced
/// `size / (div + 1)` apart from `pos` on.
pub struct ChunkData {
    index: usize,
    nodes: Vec<Node>,
    pos: Point3,
    size: u32,
    div: u8,
}

impl View for ChunkData {
    type V = ChunkDataView;

    closed spec fn view(&self) -> ChunkDataView {
        ChunkDataView {
            index: self.index,
            nodes: self.nodes@,
            pos: self.pos,
            size: self.size,
            div: self.div,
        }
    }
}

impl ChunkData {
    /// The lattice is complete: it has `(div + 2)^3` nodes.
    pub open spec fn wf(&self) -> bool {
        self@.nodes.len() == axis_nodes(self@.div) * axis_nodes(self@.div) * axis_nodes(self@.div)
    }

    /// Samples the whole lattice of the chunk at `pos`.
    pub fn new<S: NodeSampler>(index: usize, pos: Point3, size: u32, div: u8, sampler: &S) -> (chunk: Self)
        ensures
            chunk.wf(),
            chunk@.index == index,
            chunk@.pos == pos,
            chunk@.size == size,
            chunk@.div == div,
            chunk@.sampled_from(sampler),
    {
        let axis: usize = div as usize + 2;
        let scale: i128 = div as i128 + 1;
        let ghost a = axis as int;
        let mut nodes: Vec<Node> = Vec::new();
        let mut x: usize = 0;
        while x < axis
            invariant
                a == axis_nodes(div),
                axis == a,
                scale == div + 1,
                x <= axis,
                nodes@.len() == x * a * a,
                forall|i: int|
                    0 <= i < nodes@.len() ==> (#[trigger] nodes@[i]).weight == sampler.weight_at(
                        sample_point_at(pos, size, div, i),
                    ),
            decreases axis - x,
        {
            let px: i128 = Self::coordinate(pos.x, scale, x, size);
            let mut y: usize = 0;
            while y < axis
                invariant
                    a == axis_nodes(div),
                    axis == a,
                    scale == div + 1,
                    x < axis,
                    y <= axis,
                    px == pos.x * (div + 1) + x * size,
                    nodes@.len() == (x * a + y) * a,
                    forall|i: int|
                        0 <= i < nodes@.len() ==> (#[trigger] nodes@[i]).weight == sampler.weight_at(
                            sample_point_at(pos, size, div, i),
                        ),
                decreases axis - y,
            {
                let py: i128 = Self::coordinate(pos.y, scale, y, size);
                let mut z: usize = 0;
                while z < axis
                    invariant
                        a == axis_nodes(div),
                        axis == a,
                        scale == div + 1,
                        x < axis,
                        y < axis,
                        z <= axis,
                        px == pos.x * (div + 1) + x * size,
                        py == pos.y * (div + 1) + y * size,
                        nodes@.len() == (x * a + y) * a + z,
                        forall|i: int|
                            0 <= i < nodes@.len() ==> (#[trigger] nodes@[i]).weight == sampler.weight_at(
                                sample_point_at(pos, size, div, i),
                            ),
                    decreases axis - z,
                {
                    let pz: i128 = Self::coordinate(pos.z, scale, z, size);
                    let point = SamplePoint { x: px, y: py, z: pz, denom: div as u16 + 1 };
                    proof {
                        lemma_node_coords_of_index(a, x as int, y as int, z as int);
                        assert(point == sample_point_at(pos, size, div, nodes@.len() as int));
                    }
                    let node = sampler.sample(point);
                    nodes.push(node);
                    z += 1;
                }
                proof {
                    assert((x * a + y) * a + a == (x * a + (y + 1)) * a) by (nonlinear_arith);
                }
                y += 1;
            }
            proof {
                assert((x * a + a) * a == (x + 1) * a * a) by (nonlinear_arith);
            }
            x += 1;
        }
        ChunkData { index, nodes, pos, size, div }
    }

    /// `origin * scale + step * size`, which always fits.
    fn coordinate(origin: i64, scale: i128, step: usize, size: u32) -> (c: i128)
        requires
            1 <= scale <= 256,
            step <= 257,
        ensures
            c == origin * scale + step * size,
    {
        assert(-0x8000_0000_0000_0000 * 256 <= origin * scale <= 0x8000_0000_0000_0000 * 256)
            by (nonlinear_arith)
            requires
                1 <= scale <= 256,
                -0x8000_0000_0000_0000 <= origin < 0x8000_0000_0000_0000,
        ;
        assert(0 <= step * size <= 257 * 0x1_0000_0000) by (nonlinear_arith)
            requires
                0 <= step <= 257,
                0 <= size < 0x1_0000_0000,
        ;
        (origin as i128) * scale + (step as i128) * (size as i128)
    }

    /// The chunk's slot in the streaming window.
    pub fn index(&self) -> (index: usize)
        ensures
            index == self@.index,
    {
        self.index
    }

    /// World position of node `(0, 0, 0)`.
    pub fn pos(&self) -> (pos: &Point3)
        ensures
            *pos == self@.pos,
    {
        &self.pos
    }

    /// Edge length of the chunk in world units.
    pub fn size(&self) -> (size: u32)
        ensures
            size == self@.size,
    {
        self.size
    }

    /// Divisions per axis.
    pub fn div(&self) -> (div: u8)
        ensures
            div == self@.div,
    {
        self.div
    }

    /// All nodes, `x` slowest.
    pub fn nodes(&self) -> (nodes: &[Node])
        ensures
            nodes@ == self@.nodes,
    {
        self.nodes.as_slice()
    }

    /// Number of nodes.
    pub fn node_len(&self) -> (len: usize)
        ensures
            len == self@.nodes.len(),
    {
        self.nodes.len()
    }

    /// Nodes along one axis.
    pub fn axis_len(&self) -> (len: usize)
        ensures
            len == axis_nodes(self@.div),
    {
        self.div as usize + 2
    }

    /// The node at place `index`, if there is one.
    pub fn get_node(&self, index: usize) -> (node: Option<&Node>)
        ensures
            index < self@.nodes.len() ==> node == Some(&self@.nodes[index as int]),
            index >= self@.nodes.len() ==> node.is_none(),
    {
        if index < self.nodes.len() {
            Some(&self.nodes[index])
        } else {
            None
        }
    }

    /// Overwrites the node at place `index`; without effect where there is none.
    pub fn set_node(&mut self, index: usize, node: Node) -> (done: bool)
        ensures
            done == (index < old(self)@.nodes.len()),
            done ==> final(self)@ == (ChunkDataView {
                nodes: old(self)@.nodes.update(index as int, node),
                ..old(self)@
            }),
            !done ==> final(self)@ == old(self)@,
            old(self).wf() ==> final(self).wf(),
    {
        if index < self.nodes.len() {
            self.nodes.set(index, node);
            true
        } else {
            false
        }
    }

    /// Weight of the lattice node `(x, y, z)`.
    pub fn weight_at_node(&self, x: usize, y: usize, z: usize) -> (weight: u16)
        requires
            self.wf(),
            x < axis_nodes(self@.div),
            y < axis_nodes(self@.div),
            z < axis_nodes(self@.div),
        ensures
            weight == self@.weight(x as int, y as int, z as int),
    {
        let axis: usize = self.div as usize + 2;
        proof {
            lemma_node_index_bound(axis as int, x as int, y as int, z as int);
            assert(0 <= x * axis + y <= 257 * 257 + 257) by (nonlinear_arith)
                requires
                    0 <= x < axis,
                    0 <= y < axis,
                    axis <= 257,
            ;
            assert(0 <= (x * axis + y) * axis <= (257 * 257 + 257) * 257) by (nonlinear_arith)
                requires
                    0 <= x * axis + y <= 257 * 257 + 257,
                    0 <= axis <= 257,
            ;
        }
        self.nodes[(x * axis + y) * axis + z].weight
    }
}

} // verus!
