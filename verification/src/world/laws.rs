//! What holds of the window while the viewer moves about.
use crate::point::ViewPoint;
use crate::world::local::{
    beyond_keep_range, disjoint_slots, distinct_slots, doubled_gap, evicted, gap_square, keep_reach,
    lemma_moved_is_placed, retained, WorldState,
};
use crate::world::local::total_slots;
use crate::world::locator::{
    axis_slots, chunk_index_of, lemma_chunk_index_injective, lemma_slots_stand_apart, round_div,
    slot_cell, wrapped_index, ChunkLocator,
};
use vstd::set_lib::{lemma_int_range, lemma_len_subset, lemma_subset_equality, set_int_range};
use vstd::arithmetic::div_mod::{
    lemma_fundamental_div_mod, lemma_fundamental_div_mod_converse, lemma_mod_bound,
};
use vstd::prelude::*;

verus! {

/// The places, among the loaded slots, of those that stay loaded when the
/// viewer moves to `center`.
pub open spec fn kept_places(loaded: Seq<ChunkLocator>, center: ViewPoint, view_dist: u8, chunk_size: u32) -> Seq<
    int,
>
    decreases loaded.len(),
{
    if loaded.len() == 0 {
        Seq::empty()
    } else {
        let rest = kept_places(loaded.drop_last(), center, view_dist, chunk_size);
        if beyond_keep_range(loaded.last(), center, view_dist, chunk_size) {
            rest
        } else {
            rest.push(loaded.len() - 1)
        }
    }
}

/// The places, among the loaded slots, of those that are given up when the
/// viewer moves to `center`.
pub open spec fn evicted_places(
    loaded: Seq<ChunkLocator>,
    center: ViewPoint,
    view_dist: u8,
    chunk_size: u32,
) -> Seq<int>
    decreases loaded.len(),
{
    if loaded.len() == 0 {
        Seq::empty()
    } else {
        let rest = evicted_places(loaded.drop_last(), center, view_dist, chunk_size);
        if beyond_keep_range(loaded.last(), center, view_dist, chunk_size) {
            rest.push(loaded.len() - 1)
        } else {
            rest
        }
    }
}

/// Every loaded slot is either kept or given up: the kept ones are the slots
/// within range, unchanged and in their order; the others are the slots
/// beyond range, in their order, each placed anew.
pub proof fn lemma_kept_and_evicted(loaded: Seq<ChunkLocator>, center: ViewPoint, view_dist: u8, chunk_size: u32)
    ensures
        ({
            let kept = kept_places(loaded, center, view_dist, chunk_size);
            let gone = evicted_places(loaded, center, view_dist, chunk_size);
            let stay = retained(loaded, center, view_dist, chunk_size);
            let leave = evicted(loaded, center, view_dist, chunk_size);
            &&& kept.len() == stay.len()
            &&& gone.len() == leave.len()
            &&& stay.len() + leave.len() == loaded.len()
            &&& forall|j: int|
                0 <= j < kept.len() ==> 0 <= #[trigger] kept[j] < loaded.len() && stay[j] == loaded[kept[j]]
                    && !beyond_keep_range(loaded[kept[j]], center, view_dist, chunk_size)
            &&& forall|j: int, k: int| 0 <= j < k < kept.len() ==> #[trigger] kept[j] < #[trigger] kept[k]
            &&& forall|j: int|
                0 <= j < gone.len() ==> 0 <= #[trigger] gone[j] < loaded.len() && leave[j]
                    == loaded[gone[j]].moved(center, view_dist, chunk_size) && beyond_keep_range(
                    loaded[gone[j]],
                    center,
                    view_dist,
                    chunk_size,
                )
            &&& forall|j: int, k: int| 0 <= j < k < gone.len() ==> #[trigger] gone[j] < #[trigger] gone[k]
        }),
    decreases loaded.len(),
{
    if loaded.len() > 0 {
        let rest = loaded.drop_last();
        lemma_kept_and_evicted(rest, center, view_dist, chunk_size);
        let kept = kept_places(loaded, center, view_dist, chunk_size);
        let gone = evicted_places(loaded, center, view_dist, chunk_size);
        let stay = retained(loaded, center, view_dist, chunk_size);
        let leave = evicted(loaded, center, view_dist, chunk_size);
        let kept0 = kept_places(rest, center, view_dist, chunk_size);
        let gone0 = evicted_places(rest, center, view_dist, chunk_size);
        let stay0 = retained(rest, center, view_dist, chunk_size);
        let leave0 = evicted(rest, center, view_dist, chunk_size);
        assert forall|j: int| 0 <= j < kept.len() implies 0 <= #[trigger] kept[j] < loaded.len() && stay[j]
            == loaded[kept[j]] && !beyond_keep_range(loaded[kept[j]], center, view_dist, chunk_size) by {
            if j < kept0.len() {
                assert(kept[j] == kept0[j]);
                assert(stay[j] == stay0[j]);
                assert(rest[kept0[j]] == loaded[kept0[j]]);
            }
        }
        assert forall|j: int, k: int| 0 <= j < k < kept.len() implies #[trigger] kept[j] < #[trigger] kept[k] by {
            assert(kept[j] == kept0[j]);
            if k < kept0.len() {
                assert(kept[k] == kept0[k]);
            }
        }
        assert forall|j: int| 0 <= j < gone.len() implies 0 <= #[trigger] gone[j] < loaded.len() && leave[j]
            == loaded[gone[j]].moved(center, view_dist, chunk_size) && beyond_keep_range(
            loaded[gone[j]],
            center,
            view_dist,
            chunk_size,
        ) by {
            if j < gone0.len() {
                assert(gone[j] == gone0[j]);
                assert(leave[j] == leave0[j]);
                assert(rest[gone0[j]] == loaded[gone0[j]]);
            }
        }
        assert forall|j: int, k: int| 0 <= j < k < gone.len() implies #[trigger] gone[j] < #[trigger] gone[k] by {
            assert(gone[j] == gone0[j]);
            if k < gone0.len() {
                assert(gone[k] == gone0[k]);
            }
        }
    }
}

/// Moving the viewer keeps the window sound.
pub proof fn lemma_recentered_is_wf(state: WorldState, center: ViewPoint)
    requires
        state.wf(),
    ensures
        state.recentered(center).wf(),
{
    let view_dist = state.view_dist;
    let chunk_size = state.chunk_size;
    let after = state.recentered(center);
    let waiting = state.unloaded.len() as int;
    lemma_kept_and_evicted(state.loaded, center, view_dist, chunk_size);
    let kept = kept_places(state.loaded, center, view_dist, chunk_size);
    let gone = evicted_places(state.loaded, center, view_dist, chunk_size);
    assert forall|j: int| 0 <= j < after.loaded.len() implies (#[trigger] after.loaded[j]).on_grid(view_dist) by {
        assert(after.loaded[j] == state.loaded[kept[j]]);
        assert(state.loaded[kept[j]].on_grid(view_dist));
    }
    assert forall|j: int| 0 <= j < after.unloaded.len() implies (#[trigger] after.unloaded[j]).on_grid(
        view_dist,
    ) && after.unloaded[j].placed(center, view_dist, chunk_size) by {
        if j < waiting {
            assert(state.unloaded[j].on_grid(view_dist));
            lemma_moved_is_placed(state.unloaded[j], center, view_dist, chunk_size);
        } else {
            let from = gone[j - waiting];
            assert(state.loaded[from].on_grid(view_dist));
            lemma_moved_is_placed(state.loaded[from], center, view_dist, chunk_size);
        }
    }
    assert(distinct_slots(after.loaded)) by {
        assert forall|j: int, k: int| 0 <= j < k < after.loaded.len() implies (#[trigger] after.loaded[j]).chunk_index
            != (#[trigger] after.loaded[k]).chunk_index by {
            assert(kept[j] < kept[k]);
            assert(state.loaded[kept[j]].chunk_index != state.loaded[kept[k]].chunk_index);
        }
    }
    assert(distinct_slots(after.unloaded)) by {
        assert forall|j: int, k: int| 0 <= j < k < after.unloaded.len() implies (#[trigger] after.unloaded[j]).chunk_index
            != (#[trigger] after.unloaded[k]).chunk_index by {
            if k < waiting {
                assert(state.unloaded[j].chunk_index != state.unloaded[k].chunk_index);
            } else {
                let from = gone[k - waiting];
                if j < waiting {
                    assert(state.loaded[from].chunk_index != state.unloaded[j].chunk_index);
                } else {
                    let other = gone[j - waiting];
                    assert(other < from);
                    assert(state.loaded[other].chunk_index != state.loaded[from].chunk_index);
                }
            }
        }
    }
    assert(disjoint_slots(after.loaded, after.unloaded)) by {
        assert forall|j: int, k: int|
            0 <= j < after.loaded.len() && 0 <= k < after.unloaded.len() implies (#[trigger] after.loaded[j]).chunk_index
            != (#[trigger] after.unloaded[k]).chunk_index by {
            let kept_at = kept[j];
            assert(after.loaded[j] == state.loaded[kept_at]);
            if k < waiting {
                assert(state.loaded[kept_at].chunk_index != state.unloaded[k].chunk_index);
            } else {
                let from = gone[k - waiting];
                if kept_at < from {
                    assert(state.loaded[kept_at].chunk_index != state.loaded[from].chunk_index);
                } else if from < kept_at {
                    assert(state.loaded[from].chunk_index != state.loaded[kept_at].chunk_index);
                }
            }
        }
    }
}

/// Moving the viewer leaves every loaded slot where it lies: a slot that is
/// loaded afterwards was loaded before, at the same place.
pub proof fn lemma_loaded_slots_stay(state: WorldState, center: ViewPoint, j: int)
    requires
        0 <= j < state.recentered(center).loaded.len(),
    ensures
        exists|i: int| 0 <= i < state.loaded.len() && #[trigger] state.loaded[i] == state.recentered(center).loaded[j],
{
    lemma_kept_and_evicted(state.loaded, center, state.view_dist, state.chunk_size);
    let i = kept_places(state.loaded, center, state.view_dist, state.chunk_size)[j];
    assert(state.loaded[i] == state.recentered(center).loaded[j]);
}

/// Two slots of one layout with the same identity, both placed for the same
/// viewer, are the same.
pub proof fn lemma_identity_fixes_the_slot(
    a: ChunkLocator,
    b: ChunkLocator,
    center: ViewPoint,
    view_dist: u8,
    chunk_size: u32,
)
    requires
        a.on_grid(view_dist),
        b.on_grid(view_dist),
        a.placed(center, view_dist, chunk_size),
        b.placed(center, view_dist, chunk_size),
        a.chunk_index == b.chunk_index,
    ensures
        a == b,
{
    let axis = axis_slots(view_dist);
    lemma_chunk_index_injective(axis, a.x_index as int, a.y_index as int, a.z_index as int);
    lemma_chunk_index_injective(axis, b.x_index as int, b.y_index as int, b.z_index as int);
    assert(a.pos@ == b.pos@);
}

/// When the viewer goes elsewhere and comes back, by one chunk along an axis
/// or any other way, every slot is where it was: in a window whose loaded
/// slots lie where the viewer needs them, each slot, loaded or waiting, has
/// its old position afterwards, and the window is as large as it was.
pub proof fn lemma_round_trip_restores_every_slot(state: WorldState, detour: ViewPoint)
    requires
        state.wf(),
        state.all_placed(),
    ensures
        ({
            let back = state.recentered(detour).recentered(state.center);
            &&& back.wf()
            &&& back.all_placed()
            &&& back.center == state.center
            &&& back.chunk_count == state.chunk_count
            &&& back.loaded.len() + back.unloaded.len() == state.loaded.len() + state.unloaded.len()
            &&& forall|i: int, j: int|
                0 <= i < back.slots().len() && 0 <= j < state.slots().len() && (#[trigger] back.slots()[i]).chunk_index
                    == (#[trigger] state.slots()[j]).chunk_index ==> back.slots()[i] == state.slots()[j]
        }),
{
    let away = state.recentered(detour);
    let back = away.recentered(state.center);
    lemma_recentered_is_wf(state, detour);
    lemma_recentered_is_wf(away, state.center);
    assert forall|k: int| 0 <= k < back.loaded.len() implies (#[trigger] back.loaded[k]).placed(
        state.center,
        state.view_dist,
        state.chunk_size,
    ) by {
        lemma_loaded_slots_stay(away, state.center, k);
        let m = choose|m: int| 0 <= m < away.loaded.len() && #[trigger] away.loaded[m] == back.loaded[k];
        lemma_loaded_slots_stay(state, detour, m);
        let i = choose|i: int| 0 <= i < state.loaded.len() && #[trigger] state.loaded[i] == away.loaded[m];
        assert(state.loaded[i].placed(state.center, state.view_dist, state.chunk_size));
    }
    assert forall|i: int, j: int|
        0 <= i < back.slots().len() && 0 <= j < state.slots().len() && (#[trigger] back.slots()[i]).chunk_index
            == (#[trigger] state.slots()[j]).chunk_index implies back.slots()[i] == state.slots()[j] by {
        let a = back.slots()[i];
        let b = state.slots()[j];
        if i < back.loaded.len() {
            assert(a == back.loaded[i]);
        } else {
            assert(a == back.unloaded[i - back.loaded.len()]);
        }
        if j < state.loaded.len() {
            assert(b == state.loaded[j]);
        } else {
            assert(b == state.unloaded[j - state.loaded.len()]);
        }
        lemma_identity_fixes_the_slot(a, b, state.center, state.view_dist, state.chunk_size);
    }
}

/// Handing out a waiting slot loads it where the viewer needs it, and
/// giving up every loaded slot leaves none out of place.
pub proof fn lemma_picking_keeps_slots_in_place(state: WorldState, k: int)
    requires
        state.wf(),
        state.all_placed(),
        0 <= k < state.unloaded.len(),
    ensures
        state.dispatched(k).all_placed(),
        state.all_unloaded().all_placed(),
{
    let after = state.dispatched(k);
    assert forall|i: int| 0 <= i < after.loaded.len() implies (#[trigger] after.loaded[i]).placed(
        after.center,
        after.view_dist,
        after.chunk_size,
    ) by {
        if i < state.loaded.len() {
            assert(after.loaded[i] == state.loaded[i]);
        } else {
            assert(after.loaded[i] == state.unloaded[k]);
        }
    }
}

/// The viewer stands on a corner of the chunk grid.
pub open spec fn on_chunk_grid(center: ViewPoint, chunk_size: u32) -> bool {
    &&& center.x as int % chunk_size as int == 0
    &&& center.y as int % chunk_size as int == 0
    &&& center.z as int % chunk_size as int == 0
}

/// A whole number of chunks rounds to itself.
pub proof fn lemma_round_div_of_multiple(k: int, s: int)
    requires
        s > 0,
    ensures
        round_div(k * s, s) == k,
{
    if k >= 0 {
        assert(k * s >= 0) by (nonlinear_arith)
            requires
                k >= 0,
                s > 0,
        ;
        assert(2 * (k * s) + s == k * (2 * s) + s) by (nonlinear_arith);
        lemma_fundamental_div_mod_converse(2 * (k * s) + s, 2 * s, k, s);
    } else {
        assert(k * s < 0) by (nonlinear_arith)
            requires
                k < 0,
                s > 0,
        ;
        assert(s - 2 * (k * s) == (-k) * (2 * s) + s) by (nonlinear_arith);
        lemma_fundamental_div_mod_converse(s - 2 * (k * s), 2 * s, -k, s);
    }
}

/// A slot stands for the same chunk in every window that holds that chunk.
pub proof fn lemma_cell_in_other_window(index: int, offset: int, other: int, view_dist: int)
    requires
        view_dist > 0,
        other - view_dist <= slot_cell(index, offset, view_dist) < other + view_dist,
    ensures
        slot_cell(index, other, view_dist) == slot_cell(index, offset, view_dist),
{
    let m = 2 * view_dist;
    let k = (index - offset) / m;
    lemma_fundamental_div_mod(index - offset, m);
    let cell = slot_cell(index, offset, view_dist);
    let w = cell - other + view_dist;
    assert(index - other == k * m + w) by (nonlinear_arith)
        requires
            index - offset == m * k + (index - offset) % m,
            cell == (index - offset) % m + offset - view_dist,
            w == cell - other + view_dist,
    ;
    lemma_fundamental_div_mod_converse(index - other, m, k, w);
}

/// A chunk within keeping range of a viewer on the chunk grid lies in the
/// viewer's window: `tx`, `ty` and `tz` count the chunks from the viewer's
/// chunk to it.
pub proof fn lemma_axis_within_reach(tx: int, ty: int, tz: int, view_dist: int, chunk_size: int)
    requires
        view_dist > 0,
        chunk_size > 0,
        ((2 * tx + 1) * chunk_size) * ((2 * tx + 1) * chunk_size) + ((2 * ty + 1) * chunk_size) * ((2 * ty
            + 1) * chunk_size) + ((2 * tz + 1) * chunk_size) * ((2 * tz + 1) * chunk_size) <= ((2
            * view_dist + 1) * chunk_size) * ((2 * view_dist + 1) * chunk_size),
    ensures
        -view_dist <= tx < view_dist,
{
    let pa = (2 * tx + 1) * chunk_size;
    let pb = (2 * ty + 1) * chunk_size;
    let pc = (2 * tz + 1) * chunk_size;
    let pr = (2 * view_dist + 1) * chunk_size;
    assert(pr > 0) by (nonlinear_arith)
        requires
            pr == (2 * view_dist + 1) * chunk_size,
            view_dist > 0,
            chunk_size > 0,
    ;
    assert(pb >= 1 || pb <= -1) by (nonlinear_arith)
        requires
            pb == (2 * ty + 1) * chunk_size,
            chunk_size > 0,
    ;
    assert(pb * pb >= 1) by (nonlinear_arith)
        requires
            pb >= 1 || pb <= -1,
    ;
    assert(pc * pc >= 0) by (nonlinear_arith);
    if tx >= view_dist {
        assert(pa >= pr) by (nonlinear_arith)
            requires
                pa == (2 * tx + 1) * chunk_size,
                pr == (2 * view_dist + 1) * chunk_size,
                tx >= view_dist,
                chunk_size > 0,
        ;
        assert(pa * pa >= pr * pr) by (nonlinear_arith)
            requires
                pa >= pr,
                pr > 0,
        ;
    } else if tx < -view_dist {
        assert(pa <= -pr) by (nonlinear_arith)
            requires
                pa == (2 * tx + 1) * chunk_size,
                pr == (2 * view_dist + 1) * chunk_size,
                tx <= -view_dist - 1,
                chunk_size > 0,
        ;
        assert(pa * pa >= pr * pr) by (nonlinear_arith)
            requires
                pa <= -pr,
                pr > 0,
        ;
    }
}

/// A loaded slot that a viewer on the chunk grid keeps lies where that
/// viewer needs it.
pub proof fn lemma_kept_slot_is_placed(
    slot: ChunkLocator,
    before: ViewPoint,
    center: ViewPoint,
    view_dist: u8,
    chunk_size: u32,
)
    requires
        view_dist > 0,
        chunk_size > 0,
        slot.placed(before, view_dist, chunk_size),
        on_chunk_grid(center, chunk_size),
        !beyond_keep_range(slot, center, view_dist, chunk_size),
    ensures
        slot.placed(center, view_dist, chunk_size),
{
    let vd = view_dist as int;
    let cs = chunk_size as int;
    let ox = center.x as int / cs;
    let oy = center.y as int / cs;
    let oz = center.z as int / cs;
    lemma_fundamental_div_mod(center.x as int, cs);
    lemma_fundamental_div_mod(center.y as int, cs);
    lemma_fundamental_div_mod(center.z as int, cs);
    assert(center.x == ox * cs && center.y == oy * cs && center.z == oz * cs) by (nonlinear_arith)
        requires
            center.x == cs * ox,
            center.y == cs * oy,
            center.z == cs * oz,
    ;
    lemma_round_div_of_multiple(ox, cs);
    lemma_round_div_of_multiple(oy, cs);
    lemma_round_div_of_multiple(oz, cs);
    let qx = slot_cell(slot.x_index as int, round_div(before.x as int, cs), vd);
    let qy = slot_cell(slot.y_index as int, round_div(before.y as int, cs), vd);
    let qz = slot_cell(slot.z_index as int, round_div(before.z as int, cs), vd);
    let tx = qx - ox;
    let ty = qy - oy;
    let tz = qz - oz;
    assert(doubled_gap(slot.pos.x as int, cs, center.x as int) == (2 * tx + 1) * cs) by (nonlinear_arith)
        requires
            slot.pos.x == qx * cs,
            center.x == ox * cs,
            tx == qx - ox,
    ;
    assert(doubled_gap(slot.pos.y as int, cs, center.y as int) == (2 * ty + 1) * cs) by (nonlinear_arith)
        requires
            slot.pos.y == qy * cs,
            center.y == oy * cs,
            ty == qy - oy,
    ;
    assert(doubled_gap(slot.pos.z as int, cs, center.z as int) == (2 * tz + 1) * cs) by (nonlinear_arith)
        requires
            slot.pos.z == qz * cs,
            center.z == oz * cs,
            tz == qz - oz,
    ;
    let reach = keep_reach(view_dist, chunk_size);
    assert(reach == 2 * vd * cs + cs);
    assert(reach == (2 * vd + 1) * cs) by (nonlinear_arith)
        requires
            reach == 2 * vd * cs + cs,
    ;
    assert(gap_square(slot.pos, chunk_size, center) <= keep_reach(view_dist, chunk_size) * keep_reach(
        view_dist,
        chunk_size,
    ));
    lemma_axis_within_reach(tx, ty, tz, vd, cs);
    lemma_axis_within_reach(ty, tz, tx, vd, cs);
    lemma_axis_within_reach(tz, tx, ty, vd, cs);
    lemma_cell_in_other_window(slot.x_index as int, round_div(before.x as int, cs), ox, vd);
    lemma_cell_in_other_window(slot.y_index as int, round_div(before.y as int, cs), oy, vd);
    lemma_cell_in_other_window(slot.z_index as int, round_div(before.z as int, cs), oz, vd);
}

/// Two different slots of one layout, both placed for the same viewer, lie
/// at different places.
pub proof fn lemma_placed_slots_lie_apart(
    a: ChunkLocator,
    b: ChunkLocator,
    center: ViewPoint,
    view_dist: u8,
    chunk_size: u32,
)
    requires
        view_dist > 0,
        chunk_size > 0,
        a.on_grid(view_dist),
        b.on_grid(view_dist),
        a.placed(center, view_dist, chunk_size),
        b.placed(center, view_dist, chunk_size),
        a.chunk_index != b.chunk_index,
    ensures
        a.pos != b.pos,
{
    if a.pos == b.pos {
        let vd = view_dist as int;
        let cs = chunk_size as int;
        lemma_same_coord_same_index(a.x_index as int, b.x_index as int, center.x as int, vd, cs);
        lemma_same_coord_same_index(a.y_index as int, b.y_index as int, center.y as int, vd, cs);
        lemma_same_coord_same_index(a.z_index as int, b.z_index as int, center.z as int, vd, cs);
    }
}

/// Along one axis, two slots at the same coordinate have the same index.
pub proof fn lemma_same_coord_same_index(i: int, j: int, center: int, view_dist: int, chunk_size: int)
    requires
        view_dist > 0,
        chunk_size > 0,
        0 <= i < 2 * view_dist,
        0 <= j < 2 * view_dist,
        crate::world::locator::slot_coord(i, center, view_dist, chunk_size)
            == crate::world::locator::slot_coord(j, center, view_dist, chunk_size),
    ensures
        i == j,
{
    let offset = round_div(center, chunk_size);
    let ci = slot_cell(i, offset, view_dist);
    let cj = slot_cell(j, offset, view_dist);
    assert(ci == cj) by (nonlinear_arith)
        requires
            ci * chunk_size == cj * chunk_size,
            chunk_size > 0,
    ;
    lemma_slots_stand_apart(i, j, offset, view_dist);
}

/// When the viewer moves to a corner of the chunk grid, every slot of the
/// window lies where the viewer needs it afterwards, the loaded ones too:
/// what is kept lies in the new window. So the identities still map one to
/// one to the places, and each slot's offset from the viewer is that of its
/// wrapped index.
pub proof fn lemma_recenter_on_grid_places_every_slot(state: WorldState, center: ViewPoint)
    requires
        state.wf(),
        state.all_placed(),
        on_chunk_grid(center, state.chunk_size),
    ensures
        ({
            let after = state.recentered(center);
            &&& after.wf()
            &&& after.all_placed()
            &&& after.loaded.len() + after.unloaded.len() == state.loaded.len() + state.unloaded.len()
            &&& forall|i: int, j: int|
                0 <= i < j < after.slots().len() ==> (#[trigger] after.slots()[i]).pos
                    != (#[trigger] after.slots()[j]).pos
        }),
{
    let after = state.recentered(center);
    lemma_recentered_is_wf(state, center);
    assert forall|k: int| 0 <= k < after.loaded.len() implies (#[trigger] after.loaded[k]).placed(
        center,
        state.view_dist,
        state.chunk_size,
    ) by {
        lemma_kept_and_evicted(state.loaded, center, state.view_dist, state.chunk_size);
        let i = kept_places(state.loaded, center, state.view_dist, state.chunk_size)[k];
        assert(after.loaded[k] == state.loaded[i]);
        assert(state.loaded[i].placed(state.center, state.view_dist, state.chunk_size));
        lemma_kept_slot_is_placed(state.loaded[i], state.center, center, state.view_dist, state.chunk_size);
    }
    lemma_all_placed_slots_lie_apart(after);
}

/// In a window whose loaded slots lie where the viewer needs them, no two
/// slots lie at the same place.
pub proof fn lemma_all_placed_slots_lie_apart(state: WorldState)
    requires
        state.wf(),
        state.all_placed(),
    ensures
        forall|i: int, j: int|
            0 <= i < j < state.slots().len() ==> (#[trigger] state.slots()[i]).pos
                != (#[trigger] state.slots()[j]).pos,
{
    let held = state.loaded.len() as int;
    assert forall|i: int, j: int| 0 <= i < j < state.slots().len() implies (#[trigger] state.slots()[i]).pos
        != (#[trigger] state.slots()[j]).pos by {
        let a = state.slots()[i];
        let b = state.slots()[j];
        if j < held {
            assert(a == state.loaded[i] && b == state.loaded[j]);
            assert(state.loaded[i].chunk_index != state.loaded[j].chunk_index);
        } else if i < held {
            assert(a == state.loaded[i] && b == state.unloaded[j - held]);
            assert(state.loaded[i].chunk_index != state.unloaded[j - held].chunk_index);
        } else {
            assert(a == state.unloaded[i - held] && b == state.unloaded[j - held]);
            assert(state.unloaded[i - held].chunk_index != state.unloaded[j - held].chunk_index);
        }
        lemma_placed_slots_lie_apart(a, b, state.center, state.view_dist, state.chunk_size);
    }
}

/// The identities of all slots of the window, the loaded ones first.
pub open spec fn identities(state: WorldState) -> Seq<int> {
    Seq::new(state.slots().len(), |i: int| state.slots()[i].chunk_index as int)
}

/// Every slot of a sound window lies on the grid; where the loaded slots
/// lie where the viewer needs them, every slot does.
pub proof fn lemma_slot_of_window(state: WorldState, i: int)
    requires
        state.wf(),
        0 <= i < state.slots().len(),
    ensures
        state.slots()[i].on_grid(state.view_dist),
        state.all_placed() ==> state.slots()[i].placed(state.center, state.view_dist, state.chunk_size),
{
    if i < state.loaded.len() {
        assert(state.slots()[i] == state.loaded[i]);
    } else {
        assert(state.slots()[i] == state.unloaded[i - state.loaded.len()]);
    }
}

/// The window holds a slot for every identity below the number of its slots.
pub proof fn lemma_every_identity_is_held(state: WorldState, id: int)
    requires
        state.wf(),
        0 <= id < total_slots(state.view_dist),
    ensures
        exists|i: int| 0 <= i < state.slots().len() && (#[trigger] state.slots()[i]).chunk_index == id,
{
    let ids = identities(state);
    let total = total_slots(state.view_dist);
    let held = state.loaded.len() as int;
    assert forall|i: int, j: int| 0 <= i < ids.len() && 0 <= j < ids.len() && i != j implies ids[i]
        != ids[j] by {
        let (lo, hi) = if i < j {
            (i, j)
        } else {
            (j, i)
        };
        if hi < held {
            assert(state.loaded[lo].chunk_index != state.loaded[hi].chunk_index);
        } else if lo < held {
            assert(state.loaded[lo].chunk_index != state.unloaded[hi - held].chunk_index);
        } else {
            assert(state.unloaded[lo - held].chunk_index != state.unloaded[hi - held].chunk_index);
        }
    }
    ids.unique_seq_to_set();
    lemma_int_range(0, total);
    assert forall|v: int| ids.to_set().contains(v) implies set_int_range(0, total).contains(v) by {
        let i = choose|i: int| 0 <= i < ids.len() && ids[i] == v;
        lemma_slot_of_window(state, i);
        let slot = state.slots()[i];
        lemma_chunk_index_injective(
            axis_slots(state.view_dist),
            slot.x_index as int,
            slot.y_index as int,
            slot.z_index as int,
        );
    }
    lemma_len_subset(ids.to_set(), set_int_range(0, total));
    lemma_subset_equality(ids.to_set(), set_int_range(0, total));
    assert(set_int_range(0, total).contains(id));
    assert(ids.to_set().contains(id));
    let i = choose|i: int| 0 <= i < ids.len() && ids[i] == id;
    assert(state.slots()[i].chunk_index == id);
}

/// Where a slot lies, seen from the viewer.
pub open spec fn offset_from_viewer(slot: ChunkLocator, center: ViewPoint) -> (int, int, int) {
    (slot.pos.x - center.x, slot.pos.y - center.y, slot.pos.z - center.z)
}

/// The offset of the slot whose wrapped indices are `(wx, wy, wz)`.
pub open spec fn window_offset(wx: int, wy: int, wz: int, view_dist: u8, chunk_size: u32) -> (
    int,
    int,
    int,
) {
    ((wx - view_dist) * chunk_size, (wy - view_dist) * chunk_size, (wz - view_dist) * chunk_size)
}

/// Along one axis, a slot placed for a viewer on the chunk grid lies
/// `wrapped index - view_dist` chunks from the viewer.
pub proof fn lemma_coord_from_viewer(index: int, center: int, view_dist: int, chunk_size: int)
    requires
        view_dist > 0,
        chunk_size > 0,
        center % chunk_size == 0,
    ensures
        round_div(center, chunk_size) == center / chunk_size,
        crate::world::locator::slot_coord(index, center, view_dist, chunk_size) - center == (wrapped_index(
            index,
            center / chunk_size,
            view_dist,
        ) - view_dist) * chunk_size,
        0 <= wrapped_index(index, center / chunk_size, view_dist) < 2 * view_dist,
{
    let o = center / chunk_size;
    lemma_fundamental_div_mod(center, chunk_size);
    assert(center == o * chunk_size) by (nonlinear_arith)
        requires
            center == chunk_size * o,
    ;
    lemma_round_div_of_multiple(o, chunk_size);
    let w = wrapped_index(index, o, view_dist);
    lemma_mod_bound(index - o, 2 * view_dist);
    assert((w + o - view_dist) * chunk_size - o * chunk_size == (w - view_dist) * chunk_size)
        by (nonlinear_arith);
}

/// A slot placed for a viewer on the chunk grid has the offset of its
/// wrapped indices.
pub proof fn lemma_offset_of_placed_slot(slot: ChunkLocator, center: ViewPoint, view_dist: u8, chunk_size: u32)
    requires
        view_dist > 0,
        chunk_size > 0,
        slot.placed(center, view_dist, chunk_size),
        on_chunk_grid(center, chunk_size),
    ensures
        offset_from_viewer(slot, center) == window_offset(
            wrapped_index(slot.x_index as int, center.x as int / chunk_size as int, view_dist as int),
            wrapped_index(slot.y_index as int, center.y as int / chunk_size as int, view_dist as int),
            wrapped_index(slot.z_index as int, center.z as int / chunk_size as int, view_dist as int),
            view_dist,
            chunk_size,
        ),
{
    lemma_coord_from_viewer(slot.x_index as int, center.x as int, view_dist as int, chunk_size as int);
    lemma_coord_from_viewer(slot.y_index as int, center.y as int, view_dist as int, chunk_size as int);
    lemma_coord_from_viewer(slot.z_index as int, center.z as int, view_dist as int, chunk_size as int);
}

/// Along one axis, some index wraps to each place of the window.
pub proof fn lemma_index_for_place(w: int, offset: int, view_dist: int)
    requires
        view_dist > 0,
        0 <= w < 2 * view_dist,
    ensures
        0 <= (w + offset) % (2 * view_dist) < 2 * view_dist,
        wrapped_index((w + offset) % (2 * view_dist), offset, view_dist) == w,
{
    let m = 2 * view_dist;
    lemma_mod_bound(w + offset, m);
    lemma_fundamental_div_mod(w + offset, m);
    let q = (w + offset) / m;
    let index = (w + offset) % m;
    assert(index - offset == (-q) * m + w) by (nonlinear_arith)
        requires
            w + offset == m * q + index,
    ;
    lemma_fundamental_div_mod_converse(index - offset, m, -q, w);
}

/// Some slot of the window lies at `offset` from the viewer.
pub open spec fn offset_is_taken(state: WorldState, offset: (int, int, int)) -> bool {
    exists|i: int|
        0 <= i < state.slots().len() && offset_from_viewer(#[trigger] state.slots()[i], state.center)
            == offset
}

/// Round a viewer on the chunk grid, in a window whose loaded slots lie
/// where the viewer needs them, every place of the window has its slot.
pub proof fn lemma_every_offset_is_taken(state: WorldState, wx: int, wy: int, wz: int)
    requires
        state.wf(),
        state.all_placed(),
        on_chunk_grid(state.center, state.chunk_size),
        0 <= wx < axis_slots(state.view_dist),
        0 <= wy < axis_slots(state.view_dist),
        0 <= wz < axis_slots(state.view_dist),
    ensures
        offset_is_taken(state, window_offset(wx, wy, wz, state.view_dist, state.chunk_size)),
{
    let vd = state.view_dist as int;
    let cs = state.chunk_size as int;
    let axis = axis_slots(state.view_dist);
    let ox = state.center.x as int / cs;
    let oy = state.center.y as int / cs;
    let oz = state.center.z as int / cs;
    lemma_index_for_place(wx, ox, vd);
    lemma_index_for_place(wy, oy, vd);
    lemma_index_for_place(wz, oz, vd);
    let ix = (wx + ox) % axis;
    let iy = (wy + oy) % axis;
    let iz = (wz + oz) % axis;
    lemma_chunk_index_injective(axis, ix, iy, iz);
    let id = chunk_index_of(axis, ix, iy, iz);
    lemma_every_identity_is_held(state, id);
    let i = choose|i: int| 0 <= i < state.slots().len() && (#[trigger] state.slots()[i]).chunk_index == id;
    let slot = state.slots()[i];
    lemma_slot_of_window(state, i);
    lemma_chunk_index_injective(axis, slot.x_index as int, slot.y_index as int, slot.z_index as int);
    assert(slot.x_index == ix && slot.y_index == iy && slot.z_index == iz);
    lemma_offset_of_placed_slot(slot, state.center, state.view_dist, state.chunk_size);
    assert(offset_from_viewer(state.slots()[i], state.center) == window_offset(
        wx,
        wy,
        wz,
        state.view_dist,
        state.chunk_size,
    ));
}

/// Between two corners of the chunk grid the viewer takes the window along:
/// in a window whose loaded slots lie where the viewer needs them, the
/// offsets of the slots from the viewer are the same set before and after.
pub proof fn lemma_recentering_keeps_the_offsets(state: WorldState, center: ViewPoint)
    requires
        state.wf(),
        state.all_placed(),
        on_chunk_grid(state.center, state.chunk_size),
        on_chunk_grid(center, state.chunk_size),
    ensures
        forall|i: int|
            0 <= i < state.slots().len() ==> offset_is_taken(
                state.recentered(center),
                offset_from_viewer(#[trigger] state.slots()[i], state.center),
            ),
        forall|j: int|
            0 <= j < state.recentered(center).slots().len() ==> offset_is_taken(
                state,
                offset_from_viewer(#[trigger] state.recentered(center).slots()[j], center),
            ),
{
    let after = state.recentered(center);
    let vd = state.view_dist as int;
    let cs = state.chunk_size as int;
    lemma_recenter_on_grid_places_every_slot(state, center);
    assert forall|i: int| 0 <= i < state.slots().len() implies offset_is_taken(
        after,
        offset_from_viewer(#[trigger] state.slots()[i], state.center),
    ) by {
        let slot = state.slots()[i];
        lemma_slot_of_window(state, i);
        lemma_offset_of_placed_slot(slot, state.center, state.view_dist, state.chunk_size);
        lemma_coord_from_viewer(slot.x_index as int, state.center.x as int, vd, cs);
        lemma_coord_from_viewer(slot.y_index as int, state.center.y as int, vd, cs);
        lemma_coord_from_viewer(slot.z_index as int, state.center.z as int, vd, cs);
        lemma_every_offset_is_taken(
            after,
            wrapped_index(slot.x_index as int, state.center.x as int / cs, vd),
            wrapped_index(slot.y_index as int, state.center.y as int / cs, vd),
            wrapped_index(slot.z_index as int, state.center.z as int / cs, vd),
        );
    }
    assert forall|j: int| 0 <= j < after.slots().len() implies offset_is_taken(
        state,
        offset_from_viewer(#[trigger] after.slots()[j], center),
    ) by {
        let slot = after.slots()[j];
        lemma_slot_of_window(after, j);
        lemma_offset_of_placed_slot(slot, center, state.view_dist, state.chunk_size);
        lemma_coord_from_viewer(slot.x_index as int, center.x as int, vd, cs);
        lemma_coord_from_viewer(slot.y_index as int, center.y as int, vd, cs);
        lemma_coord_from_viewer(slot.z_index as int, center.z as int, vd, cs);
        lemma_every_offset_is_taken(
            state,
            wrapped_index(slot.x_index as int, center.x as int / cs, vd),
            wrapped_index(slot.y_index as int, center.y as int / cs, vd),
            wrapped_index(slot.z_index as int, center.z as int / cs, vd),
        );
    }
}

} // verus!
