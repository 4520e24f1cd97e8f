//! Toroidal addressing: a fixed grid of chunk slots that wraps round the
//! viewer, so that the slots always cover the chunks next to the viewer.
use crate::point::{Point3, ViewPoint};
use vstd::arithmetic::div_mod::{
    lemma_fundamental_div_mod, lemma_fundamental_div_mod_converse, lemma_mod_bound,
};
use vstd::prelude::*;

verus! {

/// `c / s` rounded to the nearest whole number, halves away from zero.
pub open spec fn round_div(c: int, s: int) -> int {
    if c >= 0 {
        (2 * c + s) / (2 * s)
    } else {
        -((s - 2 * c) / (2 * s))
    }
}

/// Slots along one axis of the window.
pub open spec fn axis_slots(view_dist: u8) -> int {
    2 * view_dist
}

/// The slot's place in the window when the window starts at chunk `offset`:
/// the Euclidean remainder of `index - offset`.
pub open spec fn wrapped_index(index: int, offset: int, view_dist: int) -> int {
    (index - offset) % (2 * view_dist)
}

/// The chunk that slot `index` stands for, counted in chunks along one axis,
/// when the viewer is in chunk `offset`.
pub open spec fn slot_cell(index: int, offset: int, view_dist: int) -> int {
    wrapped_index(index, offset, view_dist) + offset - view_dist
}

/// World coordinate of slot `index` along one axis.
pub open spec fn slot_coord(index: int, center: int, view_dist: int, chunk_size: int) -> int {
    slot_cell(index, round_div(center, chunk_size), view_dist) * chunk_size
}

/// The slot's identity: its grid coordinates in one number, `x` fastest.
pub open spec fn chunk_index_of(axis: int, x: int, y: int, z: int) -> int {
    x + y * axis + z * axis * axis
}

/// The rounded quotient times the divisor is within half a divisor of the
/// dividend.
pub proof fn lemma_round_div_is_nearest(c: int, s: int)
    requires
        s > 0,
    ensures
        -s <= 2 * (round_div(c, s) * s - c) <= s,
{
    if c >= 0 {
        let q = (2 * c + s) / (2 * s);
        lemma_fundamental_div_mod(2 * c + s, 2 * s);
        lemma_mod_bound(2 * c + s, 2 * s);
        assert((2 * s) * q == 2 * (q * s)) by (nonlinear_arith);
    } else {
        let q = (s - 2 * c) / (2 * s);
        lemma_fundamental_div_mod(s - 2 * c, 2 * s);
        lemma_mod_bound(s - 2 * c, 2 * s);
        assert((2 * s) * q == -2 * ((-q) * s)) by (nonlinear_arith);
    }
}

/// A slot lies in the window of `2 * view_dist` chunks round the viewer's
/// chunk.
pub proof fn lemma_slot_in_window(index: int, center: int, view_dist: int, chunk_size: int)
    requires
        view_dist > 0,
        chunk_size > 0,
    ensures
        (round_div(center, chunk_size) - view_dist) * chunk_size <= slot_coord(
            index,
            center,
            view_dist,
            chunk_size,
        ) < (round_div(center, chunk_size) + view_dist) * chunk_size,
{
    let offset = round_div(center, chunk_size);
    lemma_mod_bound(index - offset, 2 * view_dist);
    let cell = slot_cell(index, offset, view_dist);
    assert((offset - view_dist) * chunk_size <= cell * chunk_size < (offset + view_dist) * chunk_size)
        by (nonlinear_arith)
        requires
            offset - view_dist <= cell < offset + view_dist,
            chunk_size > 0,
    ;
}

/// Where the viewer does not stand past the middle of their chunk (the
/// rounded position is not below the true one), every slot lies within
/// `view_dist` chunks of the viewer: at or above `center - view_dist *
/// chunk_size`, and below `center + view_dist * chunk_size`.
pub proof fn lemma_slot_near_center(index: int, center: int, view_dist: int, chunk_size: int)
    requires
        view_dist > 0,
        chunk_size > 0,
        center <= round_div(center, chunk_size) * chunk_size,
    ensures
        center - view_dist * chunk_size <= slot_coord(index, center, view_dist, chunk_size) < center
            + view_dist * chunk_size,
{
    let offset = round_div(center, chunk_size);
    lemma_slot_in_window(index, center, view_dist, chunk_size);
    lemma_round_div_is_nearest(center, chunk_size);
    assert((offset - view_dist) * chunk_size == offset * chunk_size - view_dist * chunk_size)
        by (nonlinear_arith);
    assert((offset + view_dist) * chunk_size == offset * chunk_size + view_dist * chunk_size)
        by (nonlinear_arith);
    let cell = slot_cell(index, offset, view_dist);
    lemma_mod_bound(index - offset, 2 * view_dist);
    assert(cell * chunk_size <= (offset + view_dist - 1) * chunk_size) by (nonlinear_arith)
        requires
            cell <= offset + view_dist - 1,
            chunk_size > 0,
    ;
    assert((offset + view_dist - 1) * chunk_size == offset * chunk_size + view_dist * chunk_size
        - chunk_size) by (nonlinear_arith);
}

/// When the window moves on by `shift` chunks, the slots change places among
/// themselves: slot `index + shift`, wrapped, then lies where slot `index`
/// lay, seen from the viewer's chunk.
pub proof fn lemma_shift_permutes_slots(index: int, offset: int, shift: int, view_dist: int)
    requires
        view_dist > 0,
    ensures
        0 <= (index + shift) % (2 * view_dist) < 2 * view_dist,
        slot_cell((index + shift) % (2 * view_dist), offset + shift, view_dist) - (offset + shift)
            == slot_cell(index, offset, view_dist) - offset,
{
    let m = 2 * view_dist;
    lemma_mod_bound(index + shift, m);
    vstd::arithmetic::div_mod::lemma_sub_mod_noop(index + shift, offset + shift, m);
    vstd::arithmetic::div_mod::lemma_sub_mod_noop((index + shift) % m, offset + shift, m);
    vstd::arithmetic::div_mod::lemma_mod_twice(index + shift, m);
    assert((index + shift) - (offset + shift) == index - offset);
}

/// Two slots of the window that stand for the same chunk are one slot.
pub proof fn lemma_slots_stand_apart(i: int, j: int, offset: int, view_dist: int)
    requires
        view_dist > 0,
        0 <= i < 2 * view_dist,
        0 <= j < 2 * view_dist,
        slot_cell(i, offset, view_dist) == slot_cell(j, offset, view_dist),
    ensures
        i == j,
{
    let m = 2 * view_dist;
    lemma_fundamental_div_mod(i - offset, m);
    lemma_fundamental_div_mod(j - offset, m);
    let qi = (i - offset) / m;
    let qj = (j - offset) / m;
    assert(i - j == m * (qi - qj)) by (nonlinear_arith)
        requires
            i - offset == m * qi + (i - offset) % m,
            j - offset == m * qj + (j - offset) % m,
            (i - offset) % m == (j - offset) % m,
    ;
    assert(qi == qj) by (nonlinear_arith)
        requires
            i - j == m * (qi - qj),
            -m < i - j < m,
            m > 0,
    ;
}

/// Moving the viewer by whole chunks moves the viewer's chunk by as many,
/// unless the viewer stands exactly between two chunks and crosses zero.
pub proof fn lemma_round_div_shift(c: int, s: int, k: int)
    requires
        s > 0,
        (2 * c + s) % (2 * s) != 0 || ((c >= 0) == (c + k * s >= 0)),
    ensures
        round_div(c + k * s, s) == round_div(c, s) + k,
{
    lemma_round_div_floor(c, s);
    lemma_round_div_floor(c + k * s, s);
    let x = 2 * c + s;
    lemma_fundamental_div_mod(x, 2 * s);
    lemma_mod_bound(x, 2 * s);
    assert(2 * (c + k * s) + s == (x / (2 * s) + k) * (2 * s) + x % (2 * s)) by (nonlinear_arith)
        requires
            x == 2 * c + s,
            x == (2 * s) * (x / (2 * s)) + x % (2 * s),
    ;
    lemma_fundamental_div_mod_converse(2 * (c + k * s) + s, 2 * s, x / (2 * s) + k, x % (2 * s));
}

/// When the viewer moves by `shift` whole chunks, the slots change places
/// among themselves: seen from the viewer's chunk, slot `index + shift`,
/// wrapped, then lies where slot `index` lay. Left out is the viewer who
/// stands exactly between two chunks and passes zero on the way.
pub proof fn lemma_shift_by_chunks_permutes_slots(
    index: int,
    center: int,
    shift: int,
    view_dist: int,
    chunk_size: int,
)
    requires
        view_dist > 0,
        chunk_size > 0,
        (2 * center + chunk_size) % (2 * chunk_size) != 0 || ((center >= 0) == (center + shift
            * chunk_size >= 0)),
    ensures
        0 <= (index + shift) % (2 * view_dist) < 2 * view_dist,
        slot_coord((index + shift) % (2 * view_dist), center + shift * chunk_size, view_dist, chunk_size)
            - round_div(center + shift * chunk_size, chunk_size) * chunk_size == slot_coord(
            index,
            center,
            view_dist,
            chunk_size,
        ) - round_div(center, chunk_size) * chunk_size,
{
    let offset = round_div(center, chunk_size);
    lemma_round_div_shift(center, chunk_size, shift);
    lemma_shift_permutes_slots(index, offset, shift, view_dist);
    let before = slot_cell(index, offset, view_dist);
    let after = slot_cell((index + shift) % (2 * view_dist), offset + shift, view_dist);
    assert(after * chunk_size - (offset + shift) * chunk_size == before * chunk_size - offset
        * chunk_size) by (nonlinear_arith)
        requires
            after - (offset + shift) == before - offset,
    ;
}

/// `round_div` is the floor of `c / s + 1 / 2`, but one less for a negative
/// `c` that lies exactly between two multiples of `s`.
pub proof fn lemma_round_div_floor(c: int, s: int)
    requires
        s > 0,
    ensures
        round_div(c, s) == (2 * c + s) / (2 * s) - (if c < 0 && (2 * c + s) % (2 * s) == 0 {
            1int
        } else {
            0int
        }),
{
    if c < 0 {
        let x = s - 2 * c;
        let q = x / (2 * s);
        let r = x % (2 * s);
        lemma_fundamental_div_mod(x, 2 * s);
        lemma_mod_bound(x, 2 * s);
        if r == 0 {
            assert(2 * c + s == (1 - q) * (2 * s) + 0) by (nonlinear_arith)
                requires
                    s - 2 * c == (2 * s) * q,
            ;
            lemma_fundamental_div_mod_converse(2 * c + s, 2 * s, 1 - q, 0);
        } else {
            assert(2 * c + s == (-q) * (2 * s) + (2 * s - r)) by (nonlinear_arith)
                requires
                    s - 2 * c == (2 * s) * q + r,
            ;
            lemma_fundamental_div_mod_converse(2 * c + s, 2 * s, -q, 2 * s - r);
        }
    }
}

/// The grid coordinates can be read off a slot's identity: different slots
/// have different identities, all below `axis^3`.
pub proof fn lemma_chunk_index_injective(axis: int, x: int, y: int, z: int)
    requires
        0 <= x < axis,
        0 <= y < axis,
        0 <= z < axis,
    ensures
        0 <= chunk_index_of(axis, x, y, z) < axis * axis * axis,
        chunk_index_of(axis, x, y, z) % axis == x,
        (chunk_index_of(axis, x, y, z) / axis) % axis == y,
        chunk_index_of(axis, x, y, z) / (axis * axis) == z,
{
    crate::chunk::data::lemma_node_index_bound(axis, z, y, x);
    crate::chunk::data::lemma_node_coords_of_index(axis, z, y, x);
    assert(chunk_index_of(axis, x, y, z) == crate::chunk::data::node_index(axis, z, y, x))
        by (nonlinear_arith);
}

/// The viewer's chunk along one axis.
pub fn chunk_offset(center: i32, chunk_size: u32) -> (offset: i64)
    requires
        chunk_size > 0,
    ensures
        offset == round_div(center as int, chunk_size as int),
        -0x1_0000_0000 <= offset <= 0x1_0000_0000,
{
    let s: u64 = chunk_size as u64;
    if center >= 0 {
        let x: u64 = 2 * (center as u64) + s;
        let q: u64 = x / (2 * s);
        proof {
            lemma_fundamental_div_mod(x as int, 2 * s);
            lemma_mod_bound(x as int, 2 * s);
            assert(2 * q <= x) by (nonlinear_arith)
                requires
                    x == (2 * s) * q + (x as int) % (2 * s),
                    0 <= (x as int) % (2 * s),
                    s >= 1,
                    q >= 0,
            ;
        }
        q as i64
    } else {
        let mag: u64 = (-(center as i64)) as u64;
        let x: u64 = s + 2 * mag;
        let q: u64 = x / (2 * s);
        proof {
            lemma_fundamental_div_mod(x as int, 2 * s);
            lemma_mod_bound(x as int, 2 * s);
            assert(2 * q <= x) by (nonlinear_arith)
                requires
                    x == (2 * s) * q + (x as int) % (2 * s),
                    0 <= (x as int) % (2 * s),
                    s >= 1,
                    q >= 0,
            ;
        }
        -(q as i64)
    }
}

/// The Euclidean remainder of `a` by `m`.
pub fn wrap(a: i64, m: i64) -> (r: i64)
    requires
        m > 0,
        a > i64::MIN,
    ensures
        r == (a as int) % (m as int),
        0 <= r < m,
{
    proof {
        lemma_mod_bound(a as int, m as int);
    }
    if a >= 0 {
        ((a as u64) % (m as u64)) as i64
    } else {
        let na: u64 = (-a) as u64;
        let r0: i64 = (na % (m as u64)) as i64;
        proof {
            let q = (na as int) / (m as int);
            lemma_fundamental_div_mod(na as int, m as int);
            lemma_mod_bound(na as int, m as int);
            if r0 == 0 {
                assert(a == (-q) * m + 0) by (nonlinear_arith)
                    requires
                        na == m * q,
                        a == -na,
                ;
                lemma_fundamental_div_mod_converse(a as int, m as int, -q, 0);
            } else {
                assert(a == (-q - 1) * m + (m - r0)) by (nonlinear_arith)
                    requires
                        na == m * q + r0,
                        a == -na,
                ;
                lemma_fundamental_div_mod_converse(a as int, m as int, -q - 1, m - r0);
            }
        }
        if r0 == 0 {
            0
        } else {
            m - r0
        }
    }
}

/// World coordinate of slot `index` along one axis.
pub fn axis_position(index: usize, center: i32, view_dist: u8, chunk_size: u32) -> (p: i64)
    requires
        view_dist > 0,
        chunk_size > 0,
        index < axis_slots(view_dist),
    ensures
        p == slot_coord(index as int, center as int, view_dist as int, chunk_size as int),
{
    let offset = chunk_offset(center, chunk_size);
    let wrapped = wrap(index as i64 - offset, 2 * (view_dist as i64));
    let cell: i64 = wrapped + offset - view_dist as i64;
    proof {
        lemma_round_div_is_nearest(center as int, chunk_size as int);
        let rest = wrapped - view_dist;
        assert(cell * chunk_size == offset * chunk_size + rest * chunk_size) by (nonlinear_arith)
            requires
                cell == rest + offset,
        ;
        assert(-255 * 0x1_0000_0000 <= rest * chunk_size <= 255 * 0x1_0000_0000) by (nonlinear_arith)
            requires
                -255 <= rest <= 255,
                0 < chunk_size < 0x1_0000_0000,
        ;
    }
    cell * (chunk_size as i64)
}

/// One slot of the window: which one it is, and where it lies now.
#[derive(Clone, Copy, Debug, PartialEq, Eq, Structural)]
pub struct ChunkLocator {
    pub chunk_index: usize,
    pub x_index: usize,
    pub y_index: usize,
    pub z_index: usize,
    pub pos: Point3,
}

impl ChunkLocator {
    /// The grid coordinates lie in the window, and the identity is theirs.
    pub open spec fn on_grid(self, view_dist: u8) -> bool {
        &&& self.x_index < axis_slots(view_dist)
        &&& self.y_index < axis_slots(view_dist)
        &&& self.z_index < axis_slots(view_dist)
        &&& self.chunk_index == chunk_index_of(
            axis_slots(view_dist),
            self.x_index as int,
            self.y_index as int,
            self.z_index as int,
        )
    }

    /// Where the slot lies for a viewer at `center`.
    pub open spec fn position_for(self, center: ViewPoint, view_dist: u8, chunk_size: u32) -> (
        int,
        int,
        int,
    ) {
        (
            slot_coord(self.x_index as int, center.x as int, view_dist as int, chunk_size as int),
            slot_coord(self.y_index as int, center.y as int, view_dist as int, chunk_size as int),
            slot_coord(self.z_index as int, center.z as int, view_dist as int, chunk_size as int),
        )
    }

    /// The slot lies where a viewer at `center` needs it.
    pub open spec fn placed(self, center: ViewPoint, view_dist: u8, chunk_size: u32) -> bool {
        self.pos@ == self.position_for(center, view_dist, chunk_size)
    }

    /// The same slot, placed for a viewer at `center`.
    pub open spec fn moved(self, center: ViewPoint, view_dist: u8, chunk_size: u32) -> ChunkLocator {
        let p = self.position_for(center, view_dist, chunk_size);
        ChunkLocator { pos: Point3 { x: p.0 as i64, y: p.1 as i64, z: p.2 as i64 }, ..self }
    }

    /// The slot with grid coordinates `(x_index, y_index, z_index)`, placed
    /// for a viewer at `center`.
    pub fn new(
        center: ViewPoint,
        view_dist: u8,
        chunk_size: u32,
        x_index: usize,
        y_index: usize,
        z_index: usize,
    ) -> (locator: Self)
        requires
            view_dist > 0,
            chunk_size > 0,
            x_index < axis_slots(view_dist),
            y_index < axis_slots(view_dist),
            z_index < axis_slots(view_dist),
        ensures
            locator.x_index == x_index,
            locator.y_index == y_index,
            locator.z_index == z_index,
            locator.on_grid(view_dist),
            locator.placed(center, view_dist, chunk_size),
    {
        let axis_length: usize = view_dist as usize * 2;
        proof {
            lemma_chunk_index_injective(axis_length as int, x_index as int, y_index as int, z_index as int);
            assert(axis_length * axis_length * axis_length <= 510 * 510 * 510) by (nonlinear_arith)
                requires
                    0 <= axis_length <= 510,
            ;
            assert(0 <= y_index * axis_length <= 510 * 510 && 0 <= z_index * axis_length <= 510 * 510)
                by (nonlinear_arith)
                requires
                    0 <= y_index < axis_length,
                    0 <= z_index < axis_length,
                    axis_length <= 510,
            ;
            assert(0 <= z_index * axis_length * axis_length <= 510 * 510 * 510) by (nonlinear_arith)
                requires
                    0 <= z_index * axis_length <= 510 * 510,
                    0 <= axis_length <= 510,
            ;
        }
        let chunk_index: usize = x_index + y_index * axis_length + z_index * axis_length * axis_length;
        let mut data = ChunkLocator {
            chunk_index,
            x_index,
            y_index,
            z_index,
            pos: Point3 { x: 0, y: 0, z: 0 },
        };
        data.rebuild_pos(center, view_dist, chunk_size);
        data
    }

    /// Places the slot for a viewer at `center`.
    pub fn rebuild_pos(&mut self, center: ViewPoint, view_dist: u8, chunk_size: u32)
        requires
            view_dist > 0,
            chunk_size > 0,
            old(self).x_index < axis_slots(view_dist),
            old(self).y_index < axis_slots(view_dist),
            old(self).z_index < axis_slots(view_dist),
        ensures
            *final(self) == old(self).moved(center, view_dist, chunk_size),
            final(self).placed(center, view_dist, chunk_size),
    {
        self.pos = Point3 {
            x: axis_position(self.x_index, center.x, view_dist, chunk_size),
            y: axis_position(self.y_index, center.y, view_dist, chunk_size),
            z: axis_position(self.z_index, center.z, view_dist, chunk_size),
        };
    }
}

} // verus!
