//! The backend that keeps the window of chunk slots: which slots are loaded,
//! which still wait, and which of the waiting ones is nearest to the viewer.
use crate::chunk::data::{lemma_node_coords_of_index, lemma_node_index_of_coords, node_coords};
use crate::point::{Point3, ViewPoint};
use crate::world::builder::WorldCommand;
use crate::world::locator::{axis_slots, chunk_index_of, lemma_chunk_index_injective, ChunkLocator};
use vstd::prelude::*;

verus! {

/// How the backend is run.
#[derive(Clone, Copy, Debug, PartialEq, Eq, Structural)]
pub struct LocalWorldSettings {
    pub thread_count: usize,
}

/// Twice the distance, along one axis, from the viewer to the middle of the
/// chunk at `pos`.
pub open spec fn doubled_gap(pos: int, chunk_size: int, center: int) -> int {
    2 * pos + chunk_size - 2 * center
}

/// The square of twice the distance from the viewer to the middle of the
/// chunk at `pos`.
pub open spec fn gap_square(pos: Point3, chunk_size: u32, center: ViewPoint) -> int {
    let dx = doubled_gap(pos.x as int, chunk_size as int, center.x as int);
    let dy = doubled_gap(pos.y as int, chunk_size as int, center.y as int);
    let dz = doubled_gap(pos.z as int, chunk_size as int, center.z as int);
    dx * dx + dy * dy + dz * dz
}

/// Twice the distance up to which a waiting slot is produced:
/// `view_dist` chunks.
pub open spec fn load_reach(view_dist: u8, chunk_size: u32) -> int {
    2 * view_dist * chunk_size
}

/// Twice the distance up to which a loaded slot is kept: half a chunk more
/// than [`load_reach`].
pub open spec fn keep_reach(view_dist: u8, chunk_size: u32) -> int {
    2 * view_dist * chunk_size + chunk_size
}

/// The slot is near enough to the viewer to be produced.
pub open spec fn in_load_range(slot: ChunkLocator, center: ViewPoint, view_dist: u8, chunk_size: u32) -> bool {
    gap_square(slot.pos, chunk_size, center) <= load_reach(view_dist, chunk_size) * load_reach(
        view_dist,
        chunk_size,
    )
}

/// The slot is too far from the viewer to be kept.
pub open spec fn beyond_keep_range(
    slot: ChunkLocator,
    center: ViewPoint,
    view_dist: u8,
    chunk_size: u32,
) -> bool {
    gap_square(slot.pos, chunk_size, center) > keep_reach(view_dist, chunk_size) * keep_reach(
        view_dist,
        chunk_size,
    )
}

/// No two slots of the sequence have the same identity.
pub open spec fn distinct_slots(slots: Seq<ChunkLocator>) -> bool {
    forall|i: int, j: int|
        #![trigger slots[i], slots[j]]
        0 <= i < j < slots.len() ==> slots[i].chunk_index != slots[j].chunk_index
}

/// No slot of `a` has the identity of a slot of `b`.
pub open spec fn disjoint_slots(a: Seq<ChunkLocator>, b: Seq<ChunkLocator>) -> bool {
    forall|i: int, j: int|
        #![trigger a[i], b[j]]
        0 <= i < a.len() && 0 <= j < b.len() ==> a[i].chunk_index != b[j].chunk_index
}

/// The loaded slots that stay loaded when the viewer moves to `center`, in
/// their order.
pub open spec fn retained(loaded: Seq<ChunkLocator>, center: ViewPoint, view_dist: u8, chunk_size: u32) -> Seq<
    ChunkLocator,
>
    decreases loaded.len(),
{
    if loaded.len() == 0 {
        Seq::empty()
    } else {
        let rest = retained(loaded.drop_last(), center, view_dist, chunk_size);
        if beyond_keep_range(loaded.last(), center, view_dist, chunk_size) {
            rest
        } else {
            rest.push(loaded.last())
        }
    }
}

/// The loaded slots that are given up when the viewer moves to `center`, in
/// their order, each placed anew.
pub open spec fn evicted(loaded: Seq<ChunkLocator>, center: ViewPoint, view_dist: u8, chunk_size: u32) -> Seq<
    ChunkLocator,
>
    decreases loaded.len(),
{
    if loaded.len() == 0 {
        Seq::empty()
    } else {
        let rest = evicted(loaded.drop_last(), center, view_dist, chunk_size);
        if beyond_keep_range(loaded.last(), center, view_dist, chunk_size) {
            rest.push(loaded.last().moved(center, view_dist, chunk_size))
        } else {
            rest
        }
    }
}

/// Slot `k` is the nearest of the waiting slots within range; of several
/// equally near ones, the first.
pub open spec fn is_nearest(
    unloaded: Seq<ChunkLocator>,
    k: int,
    center: ViewPoint,
    view_dist: u8,
    chunk_size: u32,
) -> bool {
    &&& 0 <= k < unloaded.len()
    &&& in_load_range(unloaded[k], center, view_dist, chunk_size)
    &&& forall|j: int|
        0 <= j < unloaded.len() && in_load_range(#[trigger] unloaded[j], center, view_dist, chunk_size)
            ==> {
            &&& gap_square(unloaded[k].pos, chunk_size, center) <= gap_square(
                unloaded[j].pos,
                chunk_size,
                center,
            )
            &&& j < k ==> gap_square(unloaded[k].pos, chunk_size, center) < gap_square(
                unloaded[j].pos,
                chunk_size,
                center,
            )
        }
}

/// The slot that a fresh window holds at place `i`: the slots are laid out
/// with `x` slowest, each placed for the viewer.
pub open spec fn initial_slot(center: ViewPoint, view_dist: u8, chunk_size: u32, i: int) -> ChunkLocator {
    let c = node_coords(axis_slots(view_dist), i);
    (ChunkLocator {
        chunk_index: chunk_index_of(axis_slots(view_dist), c.0, c.1, c.2) as usize,
        x_index: c.0 as usize,
        y_index: c.1 as usize,
        z_index: c.2 as usize,
        pos: Point3 { x: 0, y: 0, z: 0 },
    }).moved(center, view_dist, chunk_size)
}

/// Slots in a window of `view_dist` chunks to each side: `(2 * view_dist)^3`.
pub open spec fn total_slots(view_dist: u8) -> int {
    axis_slots(view_dist) * axis_slots(view_dist) * axis_slots(view_dist)
}

/// What a [`LocalWorldBackend`] holds.
pub struct WorldState {
    pub center: ViewPoint,
    pub view_dist: u8,
    pub chunk_size: u32,
    pub chunk_div: u8,
    pub chunk_count: usize,
    pub loaded: Seq<ChunkLocator>,
    pub unloaded: Seq<ChunkLocator>,
    pub settings: LocalWorldSettings,
}

impl WorldState {
    /// The layout is sound and every slot of the window is either loaded or
    /// waiting, never both and never twice; the waiting ones lie where the
    /// viewer needs them.
    pub open spec fn wf(self) -> bool {
        &&& self.view_dist > 0
        &&& self.chunk_size > 0
        &&& self.chunk_count == total_slots(self.view_dist)
        &&& self.loaded.len() + self.unloaded.len() == self.chunk_count
        &&& forall|i: int| 0 <= i < self.loaded.len() ==> (#[trigger] self.loaded[i]).on_grid(self.view_dist)
        &&& forall|i: int|
            0 <= i < self.unloaded.len() ==> (#[trigger] self.unloaded[i]).on_grid(self.view_dist)
                && self.unloaded[i].placed(self.center, self.view_dist, self.chunk_size)
        &&& distinct_slots(self.loaded)
        &&& distinct_slots(self.unloaded)
        &&& disjoint_slots(self.loaded, self.unloaded)
    }

    /// Every slot of the window, the loaded ones first.
    pub open spec fn slots(self) -> Seq<ChunkLocator> {
        self.loaded + self.unloaded
    }

    /// The loaded slots, too, lie where the viewer needs them: none was
    /// kept from an earlier place of the window.
    pub open spec fn all_placed(self) -> bool {
        forall|i: int|
            0 <= i < self.loaded.len() ==> (#[trigger] self.loaded[i]).placed(
                self.center,
                self.view_dist,
                self.chunk_size,
            )
    }

    /// The window as it is first laid out: every slot waits.
    pub open spec fn fresh(
        center: ViewPoint,
        view_dist: u8,
        chunk_size: u32,
        chunk_div: u8,
        settings: LocalWorldSettings,
    ) -> WorldState {
        WorldState {
            center,
            view_dist,
            chunk_size,
            chunk_div,
            chunk_count: total_slots(view_dist) as usize,
            loaded: Seq::empty(),
            unloaded: Seq::new(
                total_slots(view_dist) as nat,
                |i: int| initial_slot(center, view_dist, chunk_size, i),
            ),
            settings,
        }
    }

    /// The window after the viewer has moved to `center`: the waiting slots
    /// are placed anew; the loaded slots that are now too far away wait
    /// again, behind the others, at their new places.
    pub open spec fn recentered(self, center: ViewPoint) -> WorldState {
        WorldState {
            center,
            loaded: retained(self.loaded, center, self.view_dist, self.chunk_size),
            unloaded: self.unloaded.map_values(
                |slot: ChunkLocator| slot.moved(center, self.view_dist, self.chunk_size),
            ) + evicted(self.loaded, center, self.view_dist, self.chunk_size),
            ..self
        }
    }

    /// The window after every loaded slot has been given up: they wait
    /// again, behind the others, in their order, each placed anew.
    pub open spec fn all_unloaded(self) -> WorldState {
        WorldState {
            loaded: Seq::empty(),
            unloaded: self.unloaded + self.loaded.map_values(
                |slot: ChunkLocator| slot.moved(self.center, self.view_dist, self.chunk_size),
            ),
            ..self
        }
    }

    /// The place of the loaded slot with identity `index`, if it is loaded.
    pub open spec fn loaded_place(self, index: usize) -> Option<int> {
        if exists|k: int| 0 <= k < self.loaded.len() && (#[trigger] self.loaded[k]).chunk_index == index {
            Some(self.place_of(index))
        } else {
            None
        }
    }

    /// A place among the loaded slots that holds identity `index`, where
    /// there is one.
    pub open spec fn place_of(self, index: usize) -> int {
        choose|k: int| 0 <= k < self.loaded.len() && (#[trigger] self.loaded[k]).chunk_index == index
    }

    /// The window after the loaded slot at place `k` has been given up: it
    /// waits again, behind the others, placed anew.
    pub open spec fn unloaded_at(self, k: int) -> WorldState {
        WorldState {
            loaded: self.loaded.remove(k),
            unloaded: self.unloaded.push(self.loaded[k].moved(self.center, self.view_dist, self.chunk_size)),
            ..self
        }
    }

    /// The window after a change of layout: laid out anew round the viewer,
    /// or as it was where the new layout has no slot or no size.
    pub open spec fn relaid(self, view_dist: u8, chunk_size: u32, chunk_div: u8) -> WorldState {
        if view_dist > 0 && chunk_size > 0 {
            WorldState::fresh(self.center, view_dist, chunk_size, chunk_div, self.settings)
        } else {
            self
        }
    }

    /// The window after `command`.
    pub open spec fn after(self, command: WorldCommand) -> WorldState {
        match command {
            WorldCommand::SetCenter(center) => self.recentered(center),
            WorldCommand::UnloadAllChunks => self.all_unloaded(),
            WorldCommand::UnloadChunk(index) => match self.loaded_place(index) {
                Some(k) => self.unloaded_at(k),
                None => self,
            },
            WorldCommand::SetChunkLayout { view_dist, chunk_size, chunk_div } => self.relaid(
                view_dist,
                chunk_size,
                chunk_div,
            ),
        }
    }

    /// The place of the waiting slot to produce next, if one is in range.
    pub open spec fn nearest(self) -> Option<int> {
        if exists|k: int| is_nearest(self.unloaded, k, self.center, self.view_dist, self.chunk_size) {
            Some(self.nearest_place())
        } else {
            None
        }
    }

    /// A place that [`is_nearest`], where there is one.
    pub open spec fn nearest_place(self) -> int {
        choose|k: int| is_nearest(self.unloaded, k, self.center, self.view_dist, self.chunk_size)
    }

    /// The window after the waiting slot at place `k` has been handed out:
    /// the last waiting slot takes its place, and it is loaded.
    pub open spec fn dispatched(self, k: int) -> WorldState {
        WorldState {
            loaded: self.loaded.push(self.unloaded[k]),
            unloaded: self.unloaded.update(k, self.unloaded.last()).drop_last(),
            ..self
        }
    }
}

/// Only one slot can be the nearest.
pub proof fn lemma_nearest_is_unique(
    unloaded: Seq<ChunkLocator>,
    k1: int,
    k2: int,
    center: ViewPoint,
    view_dist: u8,
    chunk_size: u32,
)
    requires
        is_nearest(unloaded, k1, center, view_dist, chunk_size),
        is_nearest(unloaded, k2, center, view_dist, chunk_size),
    ensures
        k1 == k2,
{
}

/// A slot with identity `id` is among `slots`.
pub open spec fn has_slot(slots: Seq<ChunkLocator>, id: int) -> bool {
    exists|i: int| 0 <= i < slots.len() && (#[trigger] slots[i]).chunk_index == id
}

/// The loaded and the waiting slots part the window: no identity is on both
/// sides, and together they are as many as the window has slots.
pub proof fn lemma_partition_is_strict(state: WorldState)
    requires
        state.wf(),
    ensures
        forall|id: int| !(has_slot(state.loaded, id) && has_slot(state.unloaded, id)),
        state.loaded.len() + state.unloaded.len() == total_slots(state.view_dist),
        state.chunk_count == total_slots(state.view_dist),
{
    assert forall|id: int| !(has_slot(state.loaded, id) && has_slot(state.unloaded, id)) by {
        if has_slot(state.loaded, id) && has_slot(state.unloaded, id) {
            let i = choose|i: int| 0 <= i < state.loaded.len() && (#[trigger] state.loaded[i]).chunk_index == id;
            let j = choose|j: int|
                0 <= j < state.unloaded.len() && (#[trigger] state.unloaded[j]).chunk_index == id;
            assert(state.loaded[i].chunk_index != state.unloaded[j].chunk_index);
        }
    }
}

/// A fresh window is sound.
pub proof fn lemma_fresh_is_wf(
    center: ViewPoint,
    view_dist: u8,
    chunk_size: u32,
    chunk_div: u8,
    settings: LocalWorldSettings,
)
    requires
        view_dist > 0,
        chunk_size > 0,
    ensures
        WorldState::fresh(center, view_dist, chunk_size, chunk_div, settings).wf(),
        total_slots(view_dist) <= 510 * 510 * 510,
{
    let s = WorldState::fresh(center, view_dist, chunk_size, chunk_div, settings);
    let a = axis_slots(view_dist);
    assert(a * a * a <= 510 * 510 * 510) by (nonlinear_arith)
        requires
            0 < a <= 510,
    ;
    assert forall|i: int| 0 <= i < s.unloaded.len() implies (#[trigger] s.unloaded[i]).on_grid(view_dist)
        && s.unloaded[i].placed(center, view_dist, chunk_size) by {
        lemma_initial_slot(center, view_dist, chunk_size, i);
    }
    assert forall|i: int, j: int| 0 <= i < j < s.unloaded.len() implies (#[trigger] s.unloaded[i]).chunk_index
        != (#[trigger] s.unloaded[j]).chunk_index by {
        lemma_initial_slot(center, view_dist, chunk_size, i);
        lemma_initial_slot(center, view_dist, chunk_size, j);
        let ci = node_coords(a, i);
        let cj = node_coords(a, j);
        lemma_node_index_of_coords(a, i);
        lemma_node_index_of_coords(a, j);
        lemma_chunk_index_injective(a, ci.0, ci.1, ci.2);
        lemma_chunk_index_injective(a, cj.0, cj.1, cj.2);
    }
}

/// The slot at place `i` of a fresh window lies on the grid, at the
/// coordinates that `i` stands for, and is placed for the viewer.
pub proof fn lemma_initial_slot(center: ViewPoint, view_dist: u8, chunk_size: u32, i: int)
    requires
        view_dist > 0,
        chunk_size > 0,
        0 <= i < total_slots(view_dist),
    ensures
        initial_slot(center, view_dist, chunk_size, i).on_grid(view_dist),
        initial_slot(center, view_dist, chunk_size, i).placed(center, view_dist, chunk_size),
        initial_slot(center, view_dist, chunk_size, i).chunk_index == ({
            let c = node_coords(axis_slots(view_dist), i);
            chunk_index_of(axis_slots(view_dist), c.0, c.1, c.2)
        }),
{
    let a = axis_slots(view_dist);
    let c = node_coords(a, i);
    lemma_node_index_of_coords(a, i);
    lemma_chunk_index_injective(a, c.0, c.1, c.2);
    assert(a * a * a <= 510 * 510 * 510) by (nonlinear_arith)
        requires
            0 < a <= 510,
    ;
    lemma_position_fits(c.0, center.x as int, view_dist as int, chunk_size as int);
    lemma_position_fits(c.1, center.y as int, view_dist as int, chunk_size as int);
    lemma_position_fits(c.2, center.z as int, view_dist as int, chunk_size as int);
}

/// A slot's coordinate is far from the limits of 64 bits.
pub proof fn lemma_position_fits(index: int, center: int, view_dist: int, chunk_size: int)
    requires
        0 < view_dist <= 255,
        0 < chunk_size < 0x1_0000_0000,
        -0x8000_0000 <= center < 0x8000_0000,
    ensures
        -0x200_0000_0000 <= crate::world::locator::slot_coord(index, center, view_dist, chunk_size)
            <= 0x200_0000_0000,
{
    crate::world::locator::lemma_slot_in_window(index, center, view_dist, chunk_size);
    crate::world::locator::lemma_round_div_is_nearest(center, chunk_size);
    let offset = crate::world::locator::round_div(center, chunk_size);
    assert((offset - view_dist) * chunk_size == offset * chunk_size - view_dist * chunk_size)
        by (nonlinear_arith);
    assert((offset + view_dist) * chunk_size == offset * chunk_size + view_dist * chunk_size)
        by (nonlinear_arith);
    assert(0 < view_dist * chunk_size <= 255 * 0x1_0000_0000) by (nonlinear_arith)
        requires
            0 < view_dist <= 255,
            0 < chunk_size < 0x1_0000_0000,
    ;
}

/// The absolute value of [`doubled_gap`].
fn axis_gap(pos: i64, chunk_size: u32, center: i32) -> (gap: u128)
    ensures
        gap * gap == doubled_gap(pos as int, chunk_size as int, center as int) * doubled_gap(
            pos as int,
            chunk_size as int,
            center as int,
        ),
        gap <= 0x4_0000_0000_0000_0000,
{
    let d: i128 = 2 * (pos as i128) + chunk_size as i128 - 2 * (center as i128);
    if d >= 0 {
        d as u128
    } else {
        assert((-d) * (-d) == d * d) by (nonlinear_arith);
        (-d) as u128
    }
}

/// [`gap_square`] of the chunk at `pos`, where it is at most `limit^2`.
pub fn gap_within(pos: Point3, chunk_size: u32, center: ViewPoint, limit: u64) -> (gap: Option<u128>)
    requires
        limit <= 0x400_0000_0000,
    ensures
        match gap {
            Some(g) => g == gap_square(pos, chunk_size, center) && g <= limit * limit,
            None => gap_square(pos, chunk_size, center) > limit * limit,
        },
{
    let gx = axis_gap(pos.x, chunk_size, center.x);
    let gy = axis_gap(pos.y, chunk_size, center.y);
    let gz = axis_gap(pos.z, chunk_size, center.z);
    let lim: u128 = limit as u128;
    proof {
        assert(0 <= gx * gx && 0 <= gy * gy && 0 <= gz * gz) by (nonlinear_arith);
        assert(lim * lim <= 0x400_0000_0000 * 0x400_0000_0000) by (nonlinear_arith)
            requires
                0 <= lim <= 0x400_0000_0000,
        ;
    }
    if gx > lim || gy > lim || gz > lim {
        proof {
            assert(gx > lim ==> gx * gx > lim * lim) by (nonlinear_arith)
                requires
                    0 <= lim,
            ;
            assert(gy > lim ==> gy * gy > lim * lim) by (nonlinear_arith)
                requires
                    0 <= lim,
            ;
            assert(gz > lim ==> gz * gz > lim * lim) by (nonlinear_arith)
                requires
                    0 <= lim,
            ;
        }
        return None;
    }
    proof {
        assert(gx * gx <= lim * lim && gy * gy <= lim * lim && gz * gz <= lim * lim) by (nonlinear_arith)
            requires
                0 <= gx <= lim,
                0 <= gy <= lim,
                0 <= gz <= lim,
        ;
    }
    let total: u128 = gx * gx + gy * gy + gz * gz;
    if total <= lim * lim {
        Some(total)
    } else {
        None
    }
}

/// [`load_reach`] as a number of the machine.
pub fn load_limit(view_dist: u8, chunk_size: u32) -> (limit: u64)
    ensures
        limit == load_reach(view_dist, chunk_size),
        limit + chunk_size == keep_reach(view_dist, chunk_size),
        limit + chunk_size <= 0x400_0000_0000,
{
    let span: u64 = 2 * (view_dist as u64);
    assert(0 <= span * chunk_size <= 510 * 0x1_0000_0000) by (nonlinear_arith)
        requires
            0 <= span <= 510,
            0 <= chunk_size < 0x1_0000_0000,
    ;
    assert(span * chunk_size == 2 * view_dist * chunk_size) by (nonlinear_arith)
        requires
            span == 2 * view_dist,
    ;
    span * (chunk_size as u64)
}

/// The window of chunk slots round the viewer.
pub struct LocalWorldBackend {
    center: ViewPoint,
    view_dist: u8,
    chunk_size: u32,
    chunk_div: u8,
    chunk_count: usize,
    loaded: Vec<ChunkLocator>,
    unloaded: Vec<ChunkLocator>,
    settings: LocalWorldSettings,
}

impl View for LocalWorldBackend {
    type V = WorldState;

    closed spec fn view(&self) -> WorldState {
        WorldState {
            center: self.center,
            view_dist: self.view_dist,
            chunk_size: self.chunk_size,
            chunk_div: self.chunk_div,
            chunk_count: self.chunk_count,
            loaded: self.loaded@,
            unloaded: self.unloaded@,
            settings: self.settings,
        }
    }
}

impl LocalWorldBackend {
    /// The window is sound: see [`WorldState::wf`].
    pub open spec fn wf(&self) -> bool {
        self@.wf()
    }

    /// A window round `center` in which every slot waits.
    pub fn new(
        center: ViewPoint,
        view_dist: u8,
        chunk_size: u32,
        chunk_div: u8,
        settings: LocalWorldSettings,
    ) -> (backend: Self)
        requires
            view_dist > 0,
            chunk_size > 0,
        ensures
            backend.wf(),
            backend@ == WorldState::fresh(center, view_dist, chunk_size, chunk_div, settings),
    {
        let mut backend = LocalWorldBackend {
            center,
            view_dist,
            chunk_size,
            chunk_div,
            chunk_count: 0,
            loaded: Vec::new(),
            unloaded: Vec::new(),
            settings,
        };
        backend.initialize();
        backend
    }

    /// Lays the window out anew, for the layout and the viewer that the
    /// backend holds: every slot waits.
    pub fn initialize(&mut self)
        requires
            old(self)@.view_dist > 0,
            old(self)@.chunk_size > 0,
        ensures
            final(self).wf(),
            final(self)@ == WorldState::fresh(
                old(self)@.center,
                old(self)@.view_dist,
                old(self)@.chunk_size,
                old(self)@.chunk_div,
                old(self)@.settings,
            ),
    {
        let axis_size: usize = self.view_dist as usize * 2;
        let ghost a = axis_size as int;
        let center = self.center;
        let view_dist = self.view_dist;
        let chunk_size = self.chunk_size;
        proof {
            lemma_fresh_is_wf(center, view_dist, chunk_size, self.chunk_div, self.settings);
            assert(0 <= a * a <= 510 * 510) by (nonlinear_arith)
                requires
                    0 < a <= 510,
            ;
        }
        self.chunk_count = axis_size * axis_size * axis_size;
        self.loaded = Vec::new();
        let mut slots: Vec<ChunkLocator> = Vec::with_capacity(self.chunk_count);
        let mut x_index: usize = 0;
        while x_index < axis_size
            invariant
                view_dist > 0,
                chunk_size > 0,
                a == axis_slots(view_dist),
                axis_size == a,
                x_index <= axis_size,
                slots@.len() == x_index * a * a,
                forall|i: int|
                    0 <= i < slots@.len() ==> #[trigger] slots@[i] == initial_slot(
                        center,
                        view_dist,
                        chunk_size,
                        i,
                    ),
            decreases axis_size - x_index,
        {
            let mut y_index: usize = 0;
            while y_index < axis_size
                invariant
                    view_dist > 0,
                    chunk_size > 0,
                    a == axis_slots(view_dist),
                    axis_size == a,
                    x_index < axis_size,
                    y_index <= axis_size,
                    slots@.len() == (x_index * a + y_index) * a,
                    forall|i: int|
                        0 <= i < slots@.len() ==> #[trigger] slots@[i] == initial_slot(
                            center,
                            view_dist,
                            chunk_size,
                            i,
                        ),
                decreases axis_size - y_index,
            {
                let mut z_index: usize = 0;
                while z_index < axis_size
                    invariant
                        view_dist > 0,
                        chunk_size > 0,
                        a == axis_slots(view_dist),
                        axis_size == a,
                        x_index < axis_size,
                        y_index < axis_size,
                        z_index <= axis_size,
                        slots@.len() == (x_index * a + y_index) * a + z_index,
                        forall|i: int|
                            0 <= i < slots@.len() ==> #[trigger] slots@[i] == initial_slot(
                                center,
                                view_dist,
                                chunk_size,
                                i,
                            ),
                    decreases axis_size - z_index,
                {
                    let slot = ChunkLocator::new(center, view_dist, chunk_size, x_index, y_index, z_index);
                    proof {
                        lemma_node_coords_of_index(a, x_index as int, y_index as int, z_index as int);
                        crate::chunk::data::lemma_node_index_bound(
                            a,
                            x_index as int,
                            y_index as int,
                            z_index as int,
                        );
                        lemma_initial_slot(center, view_dist, chunk_size, slots@.len() as int);
                        assert(slot == initial_slot(center, view_dist, chunk_size, slots@.len() as int));
                    }
                    slots.push(slot);
                    z_index += 1;
                }
                proof {
                    assert((x_index * a + y_index) * a + a == (x_index * a + (y_index + 1)) * a)
                        by (nonlinear_arith);
                }
                y_index += 1;
            }
            proof {
                assert((x_index * a + a) * a == (x_index + 1) * a * a) by (nonlinear_arith);
            }
            x_index += 1;
        }
        self.unloaded = slots;
        proof {
            assert(self@.unloaded =~= WorldState::fresh(
                center,
                view_dist,
                chunk_size,
                self.chunk_div,
                self.settings,
            ).unloaded);
        }
    }

    /// Slots in the window.
    pub fn chunk_count(&self) -> (count: usize)
        ensures
            count == self@.chunk_count,
    {
        self.chunk_count
    }

    /// Where the viewer stands.
    pub fn center(&self) -> (center: ViewPoint)
        ensures
            center == self@.center,
    {
        self.center
    }

    /// Half the width of the window, in chunks.
    pub fn view_dist(&self) -> (view_dist: u8)
        ensures
            view_dist == self@.view_dist,
    {
        self.view_dist
    }

    /// Edge length of a chunk in world units.
    pub fn chunk_size(&self) -> (chunk_size: u32)
        ensures
            chunk_size == self@.chunk_size,
    {
        self.chunk_size
    }

    /// Divisions of a chunk per axis.
    pub fn chunk_div(&self) -> (chunk_div: u8)
        ensures
            chunk_div == self@.chunk_div,
    {
        self.chunk_div
    }

    /// How the backend is run.
    pub fn settings(&self) -> (settings: LocalWorldSettings)
        ensures
            settings == self@.settings,
    {
        self.settings
    }

    /// The slots that were handed out and are still near the viewer.
    pub fn loaded(&self) -> (slots: &[ChunkLocator])
        ensures
            slots@ == self@.loaded,
    {
        self.loaded.as_slice()
    }

    /// The slots that wait to be produced.
    pub fn unloaded(&self) -> (slots: &[ChunkLocator])
        ensures
            slots@ == self@.unloaded,
    {
        self.unloaded.as_slice()
    }

    /// Carries out `command`.
    pub fn process_command(&mut self, command: WorldCommand)
        requires
            old(self).wf(),
        ensures
            final(self).wf(),
            final(self)@ == old(self)@.after(command),
    {
        match command {
            WorldCommand::SetCenter(center) => self.set_center(center),
            WorldCommand::UnloadAllChunks => self.unload_all_chunks(),
            WorldCommand::UnloadChunk(index) => {
                self.unload_chunk(index);
            },
            WorldCommand::SetChunkLayout { view_dist, chunk_size, chunk_div } => {
                self.set_chunk_layout(view_dist, chunk_size, chunk_div);
            },
        }
    }

    /// Gives the window another layout and lays it out anew; without effect
    /// where the view distance or the chunk size is zero.
    pub fn set_chunk_layout(&mut self, view_dist: u8, chunk_size: u32, chunk_div: u8) -> (done: bool)
        requires
            old(self).wf(),
        ensures
            final(self).wf(),
            done == (view_dist > 0 && chunk_size > 0),
            final(self)@ == old(self)@.relaid(view_dist, chunk_size, chunk_div),
    {
        if view_dist == 0 || chunk_size == 0 {
            return false;
        }
        self.view_dist = view_dist;
        self.chunk_size = chunk_size;
        self.chunk_div = chunk_div;
        self.initialize();
        true
    }

    /// Gives up every loaded slot.
    pub fn unload_all_chunks(&mut self)
        requires
            old(self).wf(),
        ensures
            final(self).wf(),
            final(self)@ == old(self)@.all_unloaded(),
    {
        let ghost before = self@;
        let view_dist = self.view_dist;
        let chunk_size = self.chunk_size;
        let center = self.center;
        let held: usize = self.loaded.len();
        let mut i: usize = 0;
        assert(self.unloaded@ =~= before.unloaded + before.loaded.take(0).map_values(
            |slot: ChunkLocator| slot.moved(center, view_dist, chunk_size),
        ));
        while i < held
            invariant
                before.wf(),
                self@ == (WorldState { unloaded: self@.unloaded, ..before }),
                view_dist == before.view_dist,
                chunk_size == before.chunk_size,
                center == before.center,
                i <= held,
                held == before.loaded.len(),
                self.unloaded@ == before.unloaded + before.loaded.take(i as int).map_values(
                    |slot: ChunkLocator| slot.moved(center, view_dist, chunk_size),
                ),
            decreases held - i,
        {
            let mut slot = self.loaded[i];
            assert(before.loaded[i as int].on_grid(view_dist));
            slot.rebuild_pos(center, view_dist, chunk_size);
            self.unloaded.push(slot);
            assert(self.unloaded@ =~= before.unloaded + before.loaded.take(i + 1).map_values(
                |slot: ChunkLocator| slot.moved(center, view_dist, chunk_size),
            ));
            i += 1;
        }
        self.loaded = Vec::new();
        proof {
            assert(before.loaded.take(held as int) =~= before.loaded);
            assert(self@.loaded =~= before.all_unloaded().loaded);
            lemma_all_unloaded_is_wf(before);
        }
    }

    /// Gives up the loaded slot with identity `index`; without effect where
    /// no such slot is loaded.
    pub fn unload_chunk(&mut self, index: usize) -> (done: bool)
        requires
            old(self).wf(),
        ensures
            final(self).wf(),
            done == old(self)@.loaded_place(index).is_some(),
            final(self)@ == old(self)@.after(WorldCommand::UnloadChunk(index)),
    {
        let ghost before = self@;
        let held: usize = self.loaded.len();
        let mut i: usize = 0;
        while i < held
            invariant
                self@ == before,
                before == old(self)@,
                before.wf(),
                i <= held,
                held == before.loaded.len(),
                forall|j: int| 0 <= j < i ==> (#[trigger] before.loaded[j]).chunk_index != index,
            decreases held - i,
        {
            if self.loaded[i].chunk_index == index {
                proof {
                    let chosen = before.place_of(index);
                    assert(before.loaded[i as int].chunk_index == index);
                    if chosen < i {
                        assert(before.loaded[chosen].chunk_index != before.loaded[i as int].chunk_index);
                    } else if i < chosen {
                        assert(before.loaded[i as int].chunk_index != before.loaded[chosen].chunk_index);
                    }
                    assert(before.loaded_place(index) == Some(i as int));
                    assert(before.loaded[i as int].on_grid(before.view_dist));
                    lemma_unloaded_at_is_wf(before, i as int);
                }
                let mut slot = self.loaded.remove(i);
                slot.rebuild_pos(self.center, self.view_dist, self.chunk_size);
                self.unloaded.push(slot);
                return true;
            }
            i += 1;
        }
        false
    }

    /// Moves the viewer to `center`.
    pub fn set_center(&mut self, center: ViewPoint)
        requires
            old(self).wf(),
        ensures
            final(self).wf(),
            final(self)@ == old(self)@.recentered(center),
    {
        let ghost before = self@;
        let view_dist = self.view_dist;
        let chunk_size = self.chunk_size;
        self.center = center;
        let waiting: usize = self.unloaded.len();
        let mut i: usize = 0;
        while i < waiting
            invariant
                before.wf(),
                self@ == (WorldState { center, unloaded: self@.unloaded, ..before }),
                view_dist == before.view_dist,
                chunk_size == before.chunk_size,
                i <= waiting,
                waiting == before.unloaded.len(),
                self.unloaded@.len() == waiting,
                forall|j: int| 0 <= j < i ==> #[trigger] self.unloaded@[j] == before.unloaded[j].moved(
                    center,
                    view_dist,
                    chunk_size,
                ),
                forall|j: int| i <= j < waiting ==> #[trigger] self.unloaded@[j] == before.unloaded[j],
            decreases waiting - i,
        {
            let mut slot = self.unloaded[i];
            assert(before.unloaded[i as int].on_grid(view_dist));
            slot.rebuild_pos(center, view_dist, chunk_size);
            self.unloaded.set(i, slot);
            i += 1;
        }
        let held: usize = self.loaded.len();
        let limit: u64 = load_limit(view_dist, chunk_size) + chunk_size as u64;
        let mut kept: Vec<ChunkLocator> = Vec::new();
        let ghost kept_from: Seq<int> = Seq::empty();
        let ghost moved_from: Seq<int> = Seq::empty();
        let mut i: usize = 0;
        assert(before.loaded.take(0) =~= Seq::<ChunkLocator>::empty());
        assert(self.unloaded@ =~= before.unloaded.map_values(
            |slot: ChunkLocator| slot.moved(center, view_dist, chunk_size),
        ) + evicted(before.loaded.take(0), center, view_dist, chunk_size));
        while i < held
            invariant
                before.wf(),
                self@ == (WorldState { center, unloaded: self@.unloaded, ..before }),
                view_dist == before.view_dist,
                chunk_size == before.chunk_size,
                limit == keep_reach(view_dist, chunk_size),
                limit <= 0x400_0000_0000,
                i <= held,
                held == before.loaded.len(),
                waiting == before.unloaded.len(),
                kept@ == retained(before.loaded.take(i as int), center, view_dist, chunk_size),
                self.unloaded@ == before.unloaded.map_values(
                    |slot: ChunkLocator| slot.moved(center, view_dist, chunk_size),
                ) + evicted(before.loaded.take(i as int), center, view_dist, chunk_size),
                kept@.len() == kept_from.len(),
                self.unloaded@.len() == waiting + moved_from.len(),
                kept_from.len() + moved_from.len() == i,
                forall|j: int|
                    0 <= j < kept_from.len() ==> 0 <= #[trigger] kept_from[j] < i && kept@[j]
                        == before.loaded[kept_from[j]],
                forall|j: int, k: int| 0 <= j < k < kept_from.len() ==> kept_from[j] < kept_from[k],
                forall|j: int|
                    0 <= j < kept_from.len() ==> !beyond_keep_range(
                        before.loaded[#[trigger] kept_from[j]],
                        center,
                        view_dist,
                        chunk_size,
                    ),
                forall|j: int|
                    0 <= j < moved_from.len() ==> beyond_keep_range(
                        before.loaded[#[trigger] moved_from[j]],
                        center,
                        view_dist,
                        chunk_size,
                    ),
                forall|j: int|
                    0 <= j < moved_from.len() ==> 0 <= #[trigger] moved_from[j] < i && self.unloaded@[waiting
                        + j] == before.loaded[moved_from[j]].moved(center, view_dist, chunk_size),
                forall|j: int, k: int| 0 <= j < k < moved_from.len() ==> moved_from[j] < moved_from[k],
                forall|j: int| 0 <= j < waiting ==> #[trigger] self.unloaded@[j] == before.unloaded[j].moved(
                    center,
                    view_dist,
                    chunk_size,
                ),
            decreases held - i,
        {
            let slot = self.loaded[i];
            proof {
                assert(before.loaded.take(i + 1).drop_last() =~= before.loaded.take(i as int));
                assert(before.loaded.take(i + 1).last() == slot);
                assert(slot.on_grid(view_dist));
            }
            match gap_within(slot.pos, chunk_size, center, limit) {
                Some(_) => {
                    kept.push(slot);
                    proof {
                        kept_from = kept_from.push(i as int);
                    }
                },
                None => {
                    let mut placed = slot;
                    placed.rebuild_pos(center, view_dist, chunk_size);
                    self.unloaded.push(placed);
                    proof {
                        moved_from = moved_from.push(i as int);
                        assert(self.unloaded@ =~= before.unloaded.map_values(
                            |slot: ChunkLocator| slot.moved(center, view_dist, chunk_size),
                        ) + evicted(before.loaded.take(i + 1), center, view_dist, chunk_size));
                    }
                },
            }
            i += 1;
        }
        self.loaded = kept;
        proof {
            assert(before.loaded.take(held as int) =~= before.loaded);
            let after = self@;
            assert forall|j: int| 0 <= j < after.loaded.len() implies (#[trigger] after.loaded[j]).on_grid(
                view_dist,
            ) by {
                assert(after.loaded[j] == before.loaded[kept_from[j]]);
            }
            assert forall|j: int| 0 <= j < after.unloaded.len() implies (#[trigger] after.unloaded[j]).on_grid(
                view_dist,
            ) && after.unloaded[j].placed(center, view_dist, chunk_size) by {
                if j < waiting {
                    assert(before.unloaded[j].on_grid(view_dist));
                    lemma_moved_is_placed(before.unloaded[j], center, view_dist, chunk_size);
                } else {
                    let from = moved_from[j - waiting];
                    assert(after.unloaded[waiting + (j - waiting)] == before.loaded[from].moved(
                        center,
                        view_dist,
                        chunk_size,
                    ));
                    assert(before.loaded[from].on_grid(view_dist));
                    lemma_moved_is_placed(before.loaded[from], center, view_dist, chunk_size);
                }
            }
            assert forall|j: int, k: int| 0 <= j < k < after.loaded.len() implies (#[trigger] after.loaded[j]).chunk_index
                != (#[trigger] after.loaded[k]).chunk_index by {
                assert(after.loaded[j] == before.loaded[kept_from[j]]);
                assert(after.loaded[k] == before.loaded[kept_from[k]]);
                assert(kept_from[j] < kept_from[k]);
            }
            assert forall|j: int, k: int| 0 <= j < k < after.unloaded.len() implies (#[trigger] after.unloaded[j]).chunk_index
                != (#[trigger] after.unloaded[k]).chunk_index by {
                if k < waiting {
                    assert(before.unloaded[j].chunk_index != before.unloaded[k].chunk_index);
                } else {
                    let from = moved_from[k - waiting];
                    assert(after.unloaded[waiting + (k - waiting)] == before.loaded[from].moved(
                        center,
                        view_dist,
                        chunk_size,
                    ));
                    if j < waiting {
                        assert(before.loaded[from].chunk_index != before.unloaded[j].chunk_index);
                    } else {
                        let other = moved_from[j - waiting];
                        assert(after.unloaded[waiting + (j - waiting)] == before.loaded[other].moved(
                            center,
                            view_dist,
                            chunk_size,
                        ));
                        assert(other < from);
                        assert(before.loaded[other].chunk_index != before.loaded[from].chunk_index);
                    }
                }
            }
            assert forall|j: int, k: int|
                0 <= j < after.loaded.len() && 0 <= k < after.unloaded.len() implies (#[trigger] after.loaded[j]).chunk_index
                != (#[trigger] after.unloaded[k]).chunk_index by {
                let kept_at = kept_from[j];
                assert(after.loaded[j] == before.loaded[kept_at]);
                if k < waiting {
                    assert(before.loaded[kept_at].chunk_index != before.unloaded[k].chunk_index);
                } else {
                    let from = moved_from[k - waiting];
                    assert(after.unloaded[waiting + (k - waiting)] == before.loaded[from].moved(
                        center,
                        view_dist,
                        chunk_size,
                    ));
                    assert(!beyond_keep_range(before.loaded[kept_from[j]], center, view_dist, chunk_size));
                    assert(beyond_keep_range(
                        before.loaded[moved_from[k - waiting]],
                        center,
                        view_dist,
                        chunk_size,
                    ));
                    if kept_at < from {
                        assert(before.loaded[kept_at].chunk_index != before.loaded[from].chunk_index);
                    } else {
                        assert(before.loaded[from].chunk_index != before.loaded[kept_at].chunk_index);
                    }
                }
            }
        }
    }
}

impl LocalWorldBackend {
    /// The place of the waiting slot to produce next: the nearest to the
    /// viewer within range, the first of several equally near ones.
    pub fn nearest_unloaded(&self) -> (place: Option<usize>)
        ensures
            match place {
                Some(k) => self@.nearest() == Some(k as int) && k < self@.unloaded.len(),
                None => self@.nearest().is_none(),
            },
    {
        let view_dist = self.view_dist;
        let chunk_size = self.chunk_size;
        let center = self.center;
        let limit = load_limit(view_dist, chunk_size);
        let waiting: usize = self.unloaded.len();
        let mut best: Option<usize> = None;
        let mut best_gap: u128 = 0;
        let mut i: usize = 0;
        while i < waiting
            invariant
                i <= waiting,
                waiting == self.unloaded@.len(),
                view_dist == self.view_dist,
                chunk_size == self.chunk_size,
                center == self.center,
                limit == load_reach(view_dist, chunk_size),
                limit <= 0x400_0000_0000,
                match best {
                    None => forall|j: int|
                        0 <= j < i ==> !in_load_range(#[trigger] self.unloaded@[j], center, view_dist, chunk_size),
                    Some(k) => {
                        &&& k < i
                        &&& in_load_range(self.unloaded@[k as int], center, view_dist, chunk_size)
                        &&& best_gap == gap_square(self.unloaded@[k as int].pos, chunk_size, center)
                        &&& forall|j: int|
                            0 <= j < i && in_load_range(
                                #[trigger] self.unloaded@[j],
                                center,
                                view_dist,
                                chunk_size,
                            ) ==> best_gap <= gap_square(self.unloaded@[j].pos, chunk_size, center) && (j
                                < k ==> best_gap < gap_square(self.unloaded@[j].pos, chunk_size, center))
                    },
                },
            decreases waiting - i,
        {
            match gap_within(self.unloaded[i].pos, chunk_size, center, limit) {
                Some(gap) => {
                    if best.is_none() || gap < best_gap {
                        best = Some(i);
                        best_gap = gap;
                    }
                },
                None => {},
            }
            i += 1;
        }
        proof {
            match best {
                Some(k) => {
                    assert(is_nearest(self@.unloaded, k as int, center, view_dist, chunk_size));
                    let window = self@;
                    assert(is_nearest(
                        window.unloaded,
                        k as int,
                        window.center,
                        window.view_dist,
                        window.chunk_size,
                    ));
                    lemma_nearest_is_unique(
                        window.unloaded,
                        window.nearest_place(),
                        k as int,
                        window.center,
                        window.view_dist,
                        window.chunk_size,
                    );
                },
                None => {
                    assert forall|c: int| !is_nearest(self@.unloaded, c, center, view_dist, chunk_size) by {
                        if 0 <= c < waiting {
                            assert(!in_load_range(self.unloaded@[c], center, view_dist, chunk_size));
                        }
                    }
                },
            }
        }
        best
    }

    /// Hands out the waiting slot to produce next, if one is in range, and
    /// counts it as loaded.
    pub fn next_unloaded(&mut self) -> (slot: Option<ChunkLocator>)
        requires
            old(self).wf(),
        ensures
            final(self).wf(),
            match old(self)@.nearest() {
                Some(k) => slot == Some(old(self)@.unloaded[k]) && final(self)@ == old(self)@.dispatched(k),
                None => slot.is_none() && final(self)@ == old(self)@,
            },
    {
        match self.nearest_unloaded() {
            None => None,
            Some(k) => {
                proof {
                    lemma_dispatched_is_wf(self@, k as int);
                }
                let slot = self.unloaded.swap_remove(k);
                self.loaded.push(slot);
                Some(slot)
            },
        }
    }
}

/// Handing out a waiting slot keeps the window sound.
pub proof fn lemma_dispatched_is_wf(state: WorldState, k: int)
    requires
        state.wf(),
        0 <= k < state.unloaded.len(),
    ensures
        state.dispatched(k).wf(),
{
    let after = state.dispatched(k);
    let last = state.unloaded.len() - 1;
    assert forall|i: int| 0 <= i < after.unloaded.len() implies #[trigger] after.unloaded[i] == state.unloaded[if i
        == k {
        last
    } else {
        i
    }] by {}
    assert forall|i: int| 0 <= i < after.unloaded.len() implies (#[trigger] after.unloaded[i]).on_grid(
        state.view_dist,
    ) && after.unloaded[i].placed(state.center, state.view_dist, state.chunk_size) by {
        assert(state.unloaded[last].on_grid(state.view_dist));
        assert(state.unloaded[i].on_grid(state.view_dist));
    }
    assert forall|i: int| 0 <= i < after.loaded.len() implies (#[trigger] after.loaded[i]).on_grid(
        state.view_dist,
    ) by {
        if i < state.loaded.len() {
            assert(state.loaded[i].on_grid(state.view_dist));
        } else {
            assert(state.unloaded[k].on_grid(state.view_dist));
        }
    }
    assert forall|i: int, j: int| 0 <= i < j < after.unloaded.len() implies (#[trigger] after.unloaded[i]).chunk_index
        != (#[trigger] after.unloaded[j]).chunk_index by {
        let from_i = if i == k { last } else { i };
        let from_j = if j == k { last } else { j };
        if from_i < from_j {
            assert(state.unloaded[from_i].chunk_index != state.unloaded[from_j].chunk_index);
        } else {
            assert(state.unloaded[from_j].chunk_index != state.unloaded[from_i].chunk_index);
        }
    }
    assert forall|i: int, j: int| 0 <= i < j < after.loaded.len() implies (#[trigger] after.loaded[i]).chunk_index
        != (#[trigger] after.loaded[j]).chunk_index by {
        if j < state.loaded.len() {
            assert(state.loaded[i].chunk_index != state.loaded[j].chunk_index);
        } else {
            assert(state.loaded[i].chunk_index != state.unloaded[k].chunk_index);
        }
    }
    assert forall|i: int, j: int|
        0 <= i < after.loaded.len() && 0 <= j < after.unloaded.len() implies (#[trigger] after.loaded[i]).chunk_index
        != (#[trigger] after.unloaded[j]).chunk_index by {
        let from_j = if j == k { last } else { j };
        if i < state.loaded.len() {
            assert(state.loaded[i].chunk_index != state.unloaded[from_j].chunk_index);
        } else if k < from_j {
            assert(state.unloaded[k].chunk_index != state.unloaded[from_j].chunk_index);
        } else {
            assert(state.unloaded[from_j].chunk_index != state.unloaded[k].chunk_index);
        }
    }
}

/// When the viewer goes elsewhere and comes back, by one chunk along an axis
/// or any other way, every waiting slot is where it was, and in its place.
pub proof fn lemma_recenter_round_trip(state: WorldState, detour: ViewPoint)
    requires
        state.wf(),
    ensures
        forall|i: int|
            0 <= i < state.unloaded.len() ==> #[trigger] state.recentered(detour).recentered(
                state.center,
            ).unloaded[i] == state.unloaded[i],
{
    let away = state.recentered(detour);
    let back = away.recentered(state.center);
    assert forall|i: int| 0 <= i < state.unloaded.len() implies #[trigger] back.unloaded[i]
        == state.unloaded[i] by {
        assert(state.unloaded[i].placed(state.center, state.view_dist, state.chunk_size));
        assert(away.unloaded[i] == state.unloaded[i].moved(detour, state.view_dist, state.chunk_size));
        assert(back.unloaded[i] == away.unloaded[i].moved(
            state.center,
            state.view_dist,
            state.chunk_size,
        ));
    }
}

/// Giving up every loaded slot keeps the window sound.
pub proof fn lemma_all_unloaded_is_wf(state: WorldState)
    requires
        state.wf(),
    ensures
        state.all_unloaded().wf(),
{
    let after = state.all_unloaded();
    let waiting = state.unloaded.len() as int;
    assert forall|i: int| 0 <= i < after.unloaded.len() implies (#[trigger] after.unloaded[i]).on_grid(
        state.view_dist,
    ) && after.unloaded[i].placed(state.center, state.view_dist, state.chunk_size) by {
        if i < waiting {
            assert(state.unloaded[i].on_grid(state.view_dist));
        } else {
            assert(state.loaded[i - waiting].on_grid(state.view_dist));
            lemma_moved_is_placed(state.loaded[i - waiting], state.center, state.view_dist, state.chunk_size);
        }
    }
    assert forall|i: int, j: int| 0 <= i < j < after.unloaded.len() implies (#[trigger] after.unloaded[i]).chunk_index
        != (#[trigger] after.unloaded[j]).chunk_index by {
        if j < waiting {
            assert(state.unloaded[i].chunk_index != state.unloaded[j].chunk_index);
        } else if i < waiting {
            assert(state.loaded[j - waiting].chunk_index != state.unloaded[i].chunk_index);
        } else {
            assert(state.loaded[i - waiting].chunk_index != state.loaded[j - waiting].chunk_index);
        }
    }
}

/// Giving up one loaded slot keeps the window sound.
pub proof fn lemma_unloaded_at_is_wf(state: WorldState, k: int)
    requires
        state.wf(),
        0 <= k < state.loaded.len(),
    ensures
        state.unloaded_at(k).wf(),
{
    let after = state.unloaded_at(k);
    let waiting = state.unloaded.len() as int;
    lemma_moved_is_placed(state.loaded[k], state.center, state.view_dist, state.chunk_size);
    assert(state.loaded[k].on_grid(state.view_dist));
    assert forall|i: int| 0 <= i < after.loaded.len() implies #[trigger] after.loaded[i] == state.loaded[if i
        < k {
        i
    } else {
        i + 1
    }] by {}
    assert forall|i: int| 0 <= i < after.loaded.len() implies (#[trigger] after.loaded[i]).on_grid(
        state.view_dist,
    ) by {
        assert(state.loaded[i].on_grid(state.view_dist));
        assert(state.loaded[i + 1].on_grid(state.view_dist));
    }
    assert forall|i: int| 0 <= i < after.unloaded.len() implies (#[trigger] after.unloaded[i]).on_grid(
        state.view_dist,
    ) && after.unloaded[i].placed(state.center, state.view_dist, state.chunk_size) by {
        if i < waiting {
            assert(state.unloaded[i].on_grid(state.view_dist));
        }
    }
    assert forall|i: int, j: int| 0 <= i < j < after.loaded.len() implies (#[trigger] after.loaded[i]).chunk_index
        != (#[trigger] after.loaded[j]).chunk_index by {
        let from_i = if i < k { i } else { i + 1 };
        let from_j = if j < k { j } else { j + 1 };
        assert(state.loaded[from_i].chunk_index != state.loaded[from_j].chunk_index);
    }
    assert forall|i: int, j: int| 0 <= i < j < after.unloaded.len() implies (#[trigger] after.unloaded[i]).chunk_index
        != (#[trigger] after.unloaded[j]).chunk_index by {
        if j < waiting {
            assert(state.unloaded[i].chunk_index != state.unloaded[j].chunk_index);
        } else {
            assert(state.loaded[k].chunk_index != state.unloaded[i].chunk_index);
        }
    }
    assert forall|i: int, j: int|
        0 <= i < after.loaded.len() && 0 <= j < after.unloaded.len() implies (#[trigger] after.loaded[i]).chunk_index
        != (#[trigger] after.unloaded[j]).chunk_index by {
        let from_i = if i < k { i } else { i + 1 };
        if j < waiting {
            assert(state.loaded[from_i].chunk_index != state.unloaded[j].chunk_index);
        } else if from_i < k {
            assert(state.loaded[from_i].chunk_index != state.loaded[k].chunk_index);
        } else {
            assert(state.loaded[k].chunk_index != state.loaded[from_i].chunk_index);
        }
    }
}

/// A slot on the grid that is moved lies where it should.
pub proof fn lemma_moved_is_placed(slot: ChunkLocator, center: ViewPoint, view_dist: u8, chunk_size: u32)
    requires
        view_dist > 0,
        chunk_size > 0,
    ensures
        slot.moved(center, view_dist, chunk_size).placed(center, view_dist, chunk_size),
        slot.moved(center, view_dist, chunk_size).on_grid(view_dist) == slot.on_grid(view_dist),
        slot.moved(center, view_dist, chunk_size).chunk_index == slot.chunk_index,
{
    lemma_position_fits(slot.x_index as int, center.x as int, view_dist as int, chunk_size as int);
    lemma_position_fits(slot.y_index as int, center.y as int, view_dist as int, chunk_size as int);
    lemma_position_fits(slot.z_index as int, center.z as int, view_dist as int, chunk_size as int);
}

} // verus!
