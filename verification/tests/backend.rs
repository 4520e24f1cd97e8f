use gigagen::world::local::{gap_within, load_limit};
use gigagen::world::pipeline::step;
use gigagen::{
    BackendAction, BackendEvent, BackendState, ChunkLocator, LocalWorldBackend, LocalWorldSettings,
    Point3, ViewPoint, WorldCommand,
};

const HOME: ViewPoint = ViewPoint { x: 0, y: 0, z: 0 };

fn window(view_dist: u8, chunk_size: u32) -> LocalWorldBackend {
    LocalWorldBackend::new(HOME, view_dist, chunk_size, 3, LocalWorldSettings { thread_count: 2 })
}

fn assert_partition(backend: &LocalWorldBackend) {
    let mut ids: Vec<usize> = backend.loaded().iter().map(|s| s.chunk_index).collect();
    for slot in backend.unloaded() {
        assert!(!ids.contains(&slot.chunk_index));
    }
    ids.extend(backend.unloaded().iter().map(|s| s.chunk_index));
    assert_eq!(backend.loaded().len() + backend.unloaded().len(), backend.chunk_count());
    ids.sort();
    assert_eq!(ids, (0..backend.chunk_count()).collect::<Vec<usize>>());
}

fn gap(slot: &ChunkLocator, center: ViewPoint, chunk_size: i64) -> i64 {
    let dx = 2 * slot.pos.x + chunk_size - 2 * center.x as i64;
    let dy = 2 * slot.pos.y + chunk_size - 2 * center.y as i64;
    let dz = 2 * slot.pos.z + chunk_size - 2 * center.z as i64;
    dx * dx + dy * dy + dz * dz
}

#[test]
fn fresh_window_has_every_slot_unloaded() {
    let backend = window(2, 10);
    assert_eq!(backend.chunk_count(), 64);
    assert_eq!(backend.loaded().len(), 0);
    assert_eq!(backend.unloaded().len(), 64);
    assert_eq!(backend.center(), HOME);
    assert_eq!(backend.view_dist(), 2);
    assert_eq!(backend.chunk_size(), 10);
    assert_eq!(backend.chunk_div(), 3);
    assert_eq!(backend.settings(), LocalWorldSettings { thread_count: 2 });
    assert_partition(&backend);
}

#[test]
fn fresh_window_is_laid_out_x_slowest() {
    let backend = window(2, 10);
    for (i, slot) in backend.unloaded().iter().enumerate() {
        assert_eq!((slot.x_index, slot.y_index, slot.z_index), (i / 16, i / 4 % 4, i % 4));
        assert_eq!(*slot, ChunkLocator::new(HOME, 2, 10, i / 16, i / 4 % 4, i % 4));
    }
}

#[test]
fn gap_is_measured_from_the_middle_of_the_chunk() {
    let center = ViewPoint { x: 3, y: -4, z: 0 };
    // middle (5, 5, 5): twice the distance is (4, 18, 10)
    assert_eq!(gap_within(Point3 { x: 0, y: 0, z: 0 }, 10, center, 21), Some(16 + 324 + 100));
    assert_eq!(gap_within(Point3 { x: 0, y: 0, z: 0 }, 10, center, 20), None);
    assert_eq!(gap_within(Point3 { x: i64::MAX, y: 0, z: 0 }, 10, center, 1 << 42), None);
    assert_eq!(gap_within(Point3 { x: 0, y: i64::MIN, z: 0 }, u32::MAX, center, 1 << 42), None);
    assert_eq!(load_limit(2, 10), 40);
    assert_eq!(load_limit(255, u32::MAX), 510 * u32::MAX as u64);
}

#[test]
fn nearest_slot_comes_first() {
    let mut backend = window(1, 10);
    backend.set_center(ViewPoint { x: 3, y: 3, z: 3 });
    // the chunk at the origin holds the viewer: it is slot (1, 1, 1)
    assert_eq!(backend.nearest_unloaded(), Some(7));
    let slot = backend.next_unloaded().unwrap();
    assert_eq!(slot.chunk_index, 7);
    assert_eq!(slot.pos, Point3 { x: 0, y: 0, z: 0 });
    assert_eq!(backend.loaded(), &[slot]);
    assert_eq!(backend.unloaded().len(), 7);
    assert_partition(&backend);
}

#[test]
fn of_equally_near_slots_the_first_comes_first() {
    let mut backend = window(1, 10);
    let first = backend.unloaded()[0];
    let last = backend.unloaded()[7];
    assert_eq!(backend.nearest_unloaded(), Some(0));
    assert_eq!(backend.next_unloaded(), Some(first));
    // the last slot has taken the place of the one that left
    assert_eq!(backend.unloaded()[0], last);
    assert_eq!(backend.unloaded().len(), 7);
}

#[test]
fn slots_come_nearest_first_and_only_within_range() {
    let mut backend = window(2, 10);
    let mut gaps = Vec::new();
    while let Some(slot) = backend.next_unloaded() {
        gaps.push(gap(&slot, HOME, 10));
        assert_partition(&backend);
    }
    // middles at 5 or 15 from the viewer along each axis; the range is 20
    let mut wanted = vec![4 * 75; 8];
    wanted.extend(vec![4 * 275; 24]);
    assert_eq!(gaps, wanted);
    assert_eq!(backend.loaded().len(), 32);
    assert_eq!(backend.unloaded().len(), 32);
    assert_eq!(backend.nearest_unloaded(), None);
    for slot in backend.unloaded() {
        assert!(gap(slot, HOME, 10) > 40 * 40);
    }
}

#[test]
fn moving_on_gives_up_the_slots_left_behind() {
    let mut backend = window(2, 10);
    while backend.next_unloaded().is_some() {}
    let loaded_before: Vec<ChunkLocator> = backend.loaded().to_vec();
    let center = ViewPoint { x: 10, y: 0, z: 0 };
    backend.set_center(center);
    assert_eq!(backend.center(), center);
    // kept up to 25 from the viewer: the four loaded slots with their middle at x = -15 go
    let kept: Vec<ChunkLocator> =
        loaded_before.iter().filter(|s| gap(s, center, 10) <= 50 * 50).copied().collect();
    assert_eq!(kept.len(), 28);
    assert_eq!(backend.loaded(), &kept[..]);
    assert_eq!(backend.unloaded().len(), 36);
    let gone: Vec<usize> =
        loaded_before.iter().filter(|s| gap(s, center, 10) > 50 * 50).map(|s| s.chunk_index).collect();
    let tail: Vec<usize> = backend.unloaded()[32..].iter().map(|s| s.chunk_index).collect();
    assert_eq!(tail, gone);
    for slot in backend.unloaded() {
        assert_eq!(*slot, ChunkLocator::new(center, 2, 10, slot.x_index, slot.y_index, slot.z_index));
    }
    assert_partition(&backend);
}

#[test]
fn moving_far_away_gives_up_every_slot() {
    let mut backend = window(2, 10);
    while backend.next_unloaded().is_some() {}
    backend.process_command(WorldCommand::SetCenter(ViewPoint { x: 100_000, y: -7, z: 12 }));
    assert_eq!(backend.loaded().len(), 0);
    assert_eq!(backend.unloaded().len(), 64);
    assert_partition(&backend);
}

#[test]
fn recentering_with_nothing_loaded_only_moves_the_slots() {
    let mut backend = window(2, 10);
    backend.set_center(ViewPoint { x: -31, y: 0, z: 49 });
    assert_eq!(backend.loaded().len(), 0);
    assert_eq!(backend.unloaded().len(), 64);
    assert_partition(&backend);
}

#[test]
fn there_and_back_leaves_every_slot_where_it_was() {
    for axis in 0..3 {
        for step in [10i32, -10] {
            let mut backend = window(2, 10);
            let before: Vec<ChunkLocator> = backend.unloaded().to_vec();
            let mut away = HOME;
            match axis {
                0 => away.x += step,
                1 => away.y += step,
                _ => away.z += step,
            }
            backend.set_center(away);
            let moved = backend.unloaded().iter().zip(&before).filter(|(a, b)| a.pos != b.pos).count();
            // one layer of slots has gone from the trailing side to the leading side
            assert_eq!(moved, 16);
            backend.set_center(HOME);
            assert_eq!(backend.unloaded(), &before[..]);
        }
    }
}

#[test]
fn partition_stays_strict_under_commands() {
    let mut backend = window(3, 4);
    let path = [(0, 0, 0), (5, 0, 0), (9, 3, -2), (40, 40, 40), (38, 41, 40), (-7, 0, 2), (0, 0, 0)];
    for (i, (x, y, z)) in path.iter().enumerate() {
        backend.process_command(WorldCommand::SetCenter(ViewPoint { x: *x, y: *y, z: *z }));
        assert_partition(&backend);
        for _ in 0..(10 + 7 * i) {
            backend.next_unloaded();
        }
        assert_partition(&backend);
        assert_eq!(backend.chunk_count(), 216);
    }
}

#[test]
fn initialize_lays_the_window_out_anew() {
    let mut backend = window(2, 10);
    while backend.next_unloaded().is_some() {}
    backend.set_center(ViewPoint { x: 10, y: 0, z: 0 });
    backend.initialize();
    assert_eq!(backend.loaded().len(), 0);
    assert_eq!(backend.unloaded().len(), 64);
    assert_eq!(backend.unloaded()[0], ChunkLocator::new(ViewPoint { x: 10, y: 0, z: 0 }, 2, 10, 0, 0, 0));
}

#[test]
fn loop_polls_then_produces_then_waits() {
    let mut backend = window(1, 10);
    let mut next = step(&mut backend, BackendState::Running, BackendEvent::Started);
    assert_eq!(next, (BackendState::Running, BackendAction::PollCommands));
    let mut produced = Vec::new();
    loop {
        next = step(&mut backend, next.0, BackendEvent::QueueEmpty);
        match next.1 {
            BackendAction::Produce(slot) => produced.push(slot.chunk_index),
            other => {
                assert_eq!(other, BackendAction::AwaitCommand);
                break;
            }
        }
        // before every pick the queue is looked at, also when nothing waits any more
        next = step(&mut backend, next.0, BackendEvent::Produced);
        assert_eq!(next, (BackendState::Running, BackendAction::PollCommands));
    }
    produced.sort();
    assert_eq!(produced, (0..8).collect::<Vec<usize>>());
    assert_eq!(backend.unloaded().len(), 0);
    assert_eq!(backend.loaded().len(), 8);
}

#[test]
fn a_pull_with_nothing_waiting_still_takes_the_commands_in() {
    let mut backend = window(1, 10);
    while backend.next_unloaded().is_some() {}
    assert_eq!(backend.unloaded().len(), 0);
    for event in [BackendEvent::Started, BackendEvent::Produced] {
        assert_eq!(
            step(&mut backend, BackendState::Running, event),
            (BackendState::Running, BackendAction::PollCommands)
        );
    }
    // two commands are pending: both are applied, in their order, before the scan
    let first = WorldCommand::SetCenter(ViewPoint { x: 500, y: 0, z: 0 });
    let second = WorldCommand::SetCenter(ViewPoint { x: 503, y: 3, z: 3 });
    let next = step(&mut backend, BackendState::Running, BackendEvent::Command(first));
    assert_eq!(next, (BackendState::Running, BackendAction::PollCommands));
    assert_eq!(backend.unloaded().len(), 8);
    let next = step(&mut backend, next.0, BackendEvent::Command(second));
    assert_eq!(next, (BackendState::Running, BackendAction::PollCommands));
    assert_eq!(backend.center(), ViewPoint { x: 503, y: 3, z: 3 });
    let next = step(&mut backend, next.0, BackendEvent::QueueEmpty);
    match next.1 {
        BackendAction::Produce(slot) => assert_eq!(slot.pos, Point3 { x: 500, y: 0, z: 0 }),
        other => panic!("{other:?}"),
    }
}

#[test]
fn with_nothing_waiting_and_no_command_the_loop_waits() {
    let mut backend = window(1, 10);
    while backend.next_unloaded().is_some() {}
    let next = step(&mut backend, BackendState::Running, BackendEvent::Produced);
    assert_eq!(next, (BackendState::Running, BackendAction::PollCommands));
    let next = step(&mut backend, next.0, BackendEvent::QueueEmpty);
    assert_eq!(next, (BackendState::Running, BackendAction::AwaitCommand));
    assert_eq!(backend.loaded().len(), 8);
}

#[test]
fn commands_are_taken_in_before_the_next_slot() {
    let mut backend = window(1, 10);
    let there = ViewPoint { x: 3, y: 3, z: 3 };
    let next = step(&mut backend, BackendState::Running, BackendEvent::Command(WorldCommand::SetCenter(there)));
    assert_eq!(next, (BackendState::Running, BackendAction::PollCommands));
    assert_eq!(backend.center(), there);
    let next = step(&mut backend, next.0, BackendEvent::QueueEmpty);
    match next.1 {
        BackendAction::Produce(slot) => assert_eq!(slot.chunk_index, 7),
        other => panic!("{other:?}"),
    }
}

#[test]
fn a_command_that_frees_slots_wakes_the_loop() {
    let mut backend = window(1, 10);
    while backend.next_unloaded().is_some() {}
    assert_eq!(step(&mut backend, BackendState::Running, BackendEvent::QueueEmpty).1, BackendAction::AwaitCommand);
    let far = WorldCommand::SetCenter(ViewPoint { x: 500, y: 0, z: 0 });
    let next = step(&mut backend, BackendState::Running, BackendEvent::Command(far));
    assert_eq!(next, (BackendState::Running, BackendAction::PollCommands));
    assert_eq!(backend.unloaded().len(), 8);
}

#[test]
fn no_slot_in_range_ends_the_pass() {
    let mut backend = window(2, 10);
    while backend.next_unloaded().is_some() {}
    let next = step(&mut backend, BackendState::Running, BackendEvent::QueueEmpty);
    assert_eq!(next, (BackendState::Running, BackendAction::AwaitCommand));
    assert_eq!(backend.unloaded().len(), 32);
}

#[test]
fn closed_channels_end_the_loop() {
    let mut backend = window(1, 10);
    let before: Vec<ChunkLocator> = backend.unloaded().to_vec();
    assert_eq!(
        step(&mut backend, BackendState::Running, BackendEvent::CommandsClosed),
        (BackendState::Terminated, BackendAction::Stop)
    );
    assert_eq!(
        step(&mut backend, BackendState::Running, BackendEvent::OutputClosed),
        (BackendState::Draining, BackendAction::Drain)
    );
    for event in [
        BackendEvent::Drained,
        BackendEvent::QueueEmpty,
        BackendEvent::Produced,
        BackendEvent::Command(WorldCommand::SetCenter(ViewPoint { x: 50, y: 0, z: 0 })),
    ] {
        assert_eq!(step(&mut backend, BackendState::Draining, event), (BackendState::Terminated, BackendAction::Stop));
        assert_eq!(
            step(&mut backend, BackendState::Terminated, event),
            (BackendState::Terminated, BackendAction::Stop)
        );
    }
    assert_eq!(backend.unloaded(), &before[..]);
    assert_eq!(backend.center(), HOME);
}

#[test]
fn unloading_everything_makes_every_slot_wait_again() {
    let mut backend = window(2, 10);
    while backend.next_unloaded().is_some() {}
    let waiting: Vec<ChunkLocator> = backend.unloaded().to_vec();
    let loaded: Vec<ChunkLocator> = backend.loaded().to_vec();
    backend.unload_all_chunks();
    assert_eq!(backend.loaded().len(), 0);
    assert_eq!(&backend.unloaded()[..32], &waiting[..]);
    assert_eq!(&backend.unloaded()[32..], &loaded[..]);
    assert_partition(&backend);
    // they are produced again
    assert!(backend.next_unloaded().is_some());
}

#[test]
fn unloaded_slots_are_placed_for_the_viewer_of_the_day() {
    let mut backend = window(2, 10);
    let slot = backend.next_unloaded().unwrap();
    assert_eq!(slot.pos, Point3 { x: -10, y: -10, z: -10 });
    // near enough to keep the slot, far enough to move the window past it
    let center = ViewPoint { x: 15, y: 0, z: 0 };
    backend.set_center(center);
    assert_eq!(backend.loaded(), &[slot]);
    backend.process_command(WorldCommand::UnloadAllChunks);
    let back = *backend.unloaded().last().unwrap();
    assert_eq!(back.chunk_index, slot.chunk_index);
    assert_eq!(back.pos, Point3 { x: 30, y: -10, z: -10 });
    assert_eq!(back, ChunkLocator::new(center, 2, 10, slot.x_index, slot.y_index, slot.z_index));
    assert_partition(&backend);
}

#[test]
fn one_slot_can_be_unloaded_by_its_identity() {
    let mut backend = window(2, 10);
    let first = backend.next_unloaded().unwrap();
    let second = backend.next_unloaded().unwrap();
    let third = backend.next_unloaded().unwrap();
    assert!(backend.unload_chunk(second.chunk_index));
    assert_eq!(backend.loaded(), &[first, third]);
    assert_eq!(backend.unloaded().len(), 62);
    assert_eq!(*backend.unloaded().last().unwrap(), second);
    assert_partition(&backend);
    // a slot that waits cannot be unloaded, nor one that does not exist
    assert!(!backend.unload_chunk(second.chunk_index));
    assert!(!backend.unload_chunk(64));
    backend.process_command(WorldCommand::UnloadChunk(first.chunk_index));
    assert_eq!(backend.loaded(), &[third]);
    assert_partition(&backend);
}

#[test]
fn a_new_layout_lays_the_window_out_anew() {
    let mut backend = window(2, 10);
    while backend.next_unloaded().is_some() {}
    backend.set_center(ViewPoint { x: 7, y: 0, z: 0 });
    assert!(backend.set_chunk_layout(3, 4, 9));
    assert_eq!((backend.view_dist(), backend.chunk_size(), backend.chunk_div()), (3, 4, 9));
    assert_eq!(backend.chunk_count(), 216);
    assert_eq!(backend.loaded().len(), 0);
    assert_eq!(backend.unloaded().len(), 216);
    assert_eq!(backend.center(), ViewPoint { x: 7, y: 0, z: 0 });
    assert_eq!(backend.unloaded()[215], ChunkLocator::new(ViewPoint { x: 7, y: 0, z: 0 }, 3, 4, 5, 5, 5));
    assert_partition(&backend);
}

#[test]
fn a_layout_without_slots_or_size_is_not_taken() {
    let mut backend = window(2, 10);
    backend.next_unloaded();
    let loaded: Vec<ChunkLocator> = backend.loaded().to_vec();
    assert!(!backend.set_chunk_layout(0, 10, 3));
    assert!(!backend.set_chunk_layout(2, 0, 3));
    backend.process_command(WorldCommand::SetChunkLayout { view_dist: 0, chunk_size: 0, chunk_div: 1 });
    assert_eq!((backend.view_dist(), backend.chunk_size(), backend.chunk_div()), (2, 10, 3));
    assert_eq!(backend.loaded(), &loaded[..]);
    assert_eq!(backend.unloaded().len(), 63);
}

#[test]
fn largest_window_counts_its_slots() {
    let backend = LocalWorldBackend::new(
        ViewPoint { x: i32::MIN, y: i32::MAX, z: 0 },
        60,
        u32::MAX,
        0,
        LocalWorldSettings { thread_count: 1 },
    );
    assert_eq!(backend.chunk_count(), 120 * 120 * 120);
    assert_eq!(backend.unloaded().len(), 120 * 120 * 120);
    // the viewer's chunk is (-1, 0, .); along z the viewer stands between
    // chunk -1 and chunk 0, and the slot of chunk -1 comes first
    assert_eq!(backend.nearest_unloaded(), Some((59 * 120 + 60) * 120 + 59));
}

#[test]
fn there_and_back_restores_loaded_slots_too() {
    for (axis, step) in [(0, 10i32), (0, -10), (1, 10), (2, -10), (1, 30)] {
        let mut backend = window(2, 10);
        for _ in 0..20 {
            backend.next_unloaded();
        }
        let mut before = vec![Point3 { x: 0, y: 0, z: 0 }; 64];
        for slot in backend.loaded().iter().chain(backend.unloaded()) {
            before[slot.chunk_index] = slot.pos;
        }
        let mut away = HOME;
        match axis {
            0 => away.x += step,
            1 => away.y += step,
            _ => away.z += step,
        }
        backend.set_center(away);
        backend.set_center(HOME);
        assert_eq!(backend.center(), HOME);
        assert_eq!(backend.loaded().len() + backend.unloaded().len(), 64);
        for slot in backend.loaded().iter().chain(backend.unloaded()) {
            assert_eq!(slot.pos, before[slot.chunk_index]);
        }
        assert_partition(&backend);
    }
}

#[test]
fn between_corners_of_the_chunk_grid_the_window_moves_as_a_whole() {
    let mut backend = window(2, 10);
    let offsets = |backend: &LocalWorldBackend| -> Vec<(i64, i64, i64)> {
        let c = backend.center();
        let mut all: Vec<(i64, i64, i64)> = backend
            .loaded()
            .iter()
            .chain(backend.unloaded())
            .map(|s| (s.pos.x - c.x as i64, s.pos.y - c.y as i64, s.pos.z - c.z as i64))
            .collect();
        all.sort();
        all
    };
    let at_home = offsets(&backend);
    let mut wanted = Vec::new();
    for x in [-20, -10, 0, 10] {
        for y in [-20, -10, 0, 10] {
            for z in [-20, -10, 0, 10] {
                wanted.push((x, y, z));
            }
        }
    }
    assert_eq!(at_home, wanted);
    for center in [(10, 0, 0), (10, -20, 0), (40, -20, 30), (30, -20, 30), (-50, 0, 0), (0, 0, 0)] {
        while backend.next_unloaded().is_some() {}
        backend.set_center(ViewPoint { x: center.0, y: center.1, z: center.2 });
        // no two slots at one place, and the same offsets from the viewer as before
        assert_eq!(offsets(&backend), wanted);
        // the loaded slots, too, lie where the viewer needs them
        for slot in backend.loaded() {
            let placed = ChunkLocator::new(backend.center(), 2, 10, slot.x_index, slot.y_index, slot.z_index);
            assert_eq!(*slot, placed);
        }
        assert_partition(&backend);
    }
}

#[test]
fn off_the_chunk_grid_a_kept_slot_may_lie_outside_the_window() {
    let mut backend = window(1, 10);
    while backend.next_unloaded().is_some() {}
    // the viewer's chunk moves on by one, but the chunk at x = -10 is still within 15 of the viewer
    let center = ViewPoint { x: 5, y: 0, z: 0 };
    backend.set_center(center);
    let stale: Vec<&ChunkLocator> = backend
        .loaded()
        .iter()
        .filter(|s| **s != ChunkLocator::new(center, 1, 10, s.x_index, s.y_index, s.z_index))
        .collect();
    assert!(!stale.is_empty());
    for slot in stale {
        assert_eq!(slot.pos.x, -10);
    }
    assert_partition(&backend);
}
