//! The backend's production loop as a state machine. Whoever drives it
//! performs each action (polls or awaits the command queue, produces a chunk
//! on a worker) and hands back what happened; the machine decides the rest.
use crate::chunk::builders::{chunk_triangles, EmptyMeshBuilder, SimpleMeshBuilder};
use crate::chunk::data::{ChunkData, NodeSampler};
use crate::chunk::mesh::{ChunkMesh, MeshBuilder};
use crate::point::Point3;
use crate::world::builder::WorldCommand;
use crate::world::local::{LocalWorldBackend, WorldState};
use crate::world::locator::ChunkLocator;
use vstd::prelude::*;

verus! {

/// Where the production loop stands.
#[derive(Clone, Copy, Debug, PartialEq, Eq, Structural)]
pub enum BackendState {
    /// Producing, or waiting for a command.
    Running,
    /// The consumer of the chunks is gone; work in flight is let go.
    Draining,
    /// The loop has ended.
    Terminated,
}

/// What happened since the last action.
#[derive(Clone, Copy, Debug, PartialEq, Eq, Structural)]
pub enum BackendEvent {
    /// The loop starts.
    Started,
    /// A command was taken from the queue.
    Command(WorldCommand),
    /// A poll found the command queue empty.
    QueueEmpty,
    /// The command queue is closed: nobody will send another command.
    CommandsClosed,
    /// The slot handed out last was taken up by a worker.
    Produced,
    /// A finished chunk could not be delivered: the consumer is gone.
    OutputClosed,
    /// No work is in flight any more.
    Drained,
}

/// What the driver does next.
#[derive(Clone, Copy, Debug, PartialEq, Eq, Structural)]
pub enum BackendAction {
    /// Take a command from the queue without waiting.
    PollCommands,
    /// Produce the chunk of this slot.
    Produce(ChunkLocator),
    /// Wait for the next command.
    AwaitCommand,
    /// Let the work in flight end without delivering it.
    Drain,
    /// End the loop.
    Stop,
}

/// The window, the state and the action that follow `event`. A running loop
/// looks for pending commands before every pick, whatever the window holds;
/// it waits for a command only when the queue is empty and no waiting slot
/// is in range.
pub open spec fn step_of(window: WorldState, state: BackendState, event: BackendEvent) -> (
    WorldState,
    BackendState,
    BackendAction,
) {
    match state {
        BackendState::Terminated => (window, BackendState::Terminated, BackendAction::Stop),
        BackendState::Draining => (window, BackendState::Terminated, BackendAction::Stop),
        BackendState::Running => match event {
            BackendEvent::OutputClosed => (window, BackendState::Draining, BackendAction::Drain),
            BackendEvent::CommandsClosed => (window, BackendState::Terminated, BackendAction::Stop),
            BackendEvent::Command(command) => (
                window.after(command),
                BackendState::Running,
                BackendAction::PollCommands,
            ),
            BackendEvent::QueueEmpty => match window.nearest() {
                Some(k) => (
                    window.dispatched(k),
                    BackendState::Running,
                    BackendAction::Produce(window.unloaded[k]),
                ),
                None => (window, BackendState::Running, BackendAction::AwaitCommand),
            },
            _ => (window, BackendState::Running, BackendAction::PollCommands),
        },
    }
}

/// Takes `event` in: changes the window as the event asks, and says in which
/// state the loop is now and what the driver does next.
pub fn step(backend: &mut LocalWorldBackend, state: BackendState, event: BackendEvent) -> (next: (
    BackendState,
    BackendAction,
))
    requires
        old(backend).wf(),
    ensures
        final(backend).wf(),
        (final(backend)@, next.0, next.1) == step_of(old(backend)@, state, event),
{
    match state {
        BackendState::Terminated => (BackendState::Terminated, BackendAction::Stop),
        BackendState::Draining => (BackendState::Terminated, BackendAction::Stop),
        BackendState::Running => match event {
            BackendEvent::OutputClosed => (BackendState::Draining, BackendAction::Drain),
            BackendEvent::CommandsClosed => (BackendState::Terminated, BackendAction::Stop),
            BackendEvent::Command(command) => {
                backend.process_command(command);
                (BackendState::Running, BackendAction::PollCommands)
            },
            BackendEvent::QueueEmpty => match backend.next_unloaded() {
                Some(slot) => (BackendState::Running, BackendAction::Produce(slot)),
                None => (BackendState::Running, BackendAction::AwaitCommand),
            },
            _ => (BackendState::Running, BackendAction::PollCommands),
        },
    }
}

/// What a worker hands back for one slot.
pub struct ProducedChunk {
    pub chunk_index: usize,
    pub world_position: Point3,
    pub data: ChunkData,
    pub mesh: ChunkMesh,
}

/// The work on one slot: samples the density lattice of the chunk at the
/// slot's place and, where `with_mesh` asks for it, extracts the surface.
pub fn produce<S: NodeSampler>(
    slot: ChunkLocator,
    chunk_size: u32,
    chunk_div: u8,
    sampler: &S,
    with_mesh: bool,
) -> (chunk: ProducedChunk)
    ensures
        chunk.chunk_index == slot.chunk_index,
        chunk.world_position == slot.pos,
        chunk.data.wf(),
        chunk.data@.index == slot.chunk_index,
        chunk.data@.pos == slot.pos,
        chunk.data@.size == chunk_size,
        chunk.data@.div == chunk_div,
        chunk.data@.sampled_from(sampler),
        chunk.mesh.wf(),
        chunk.mesh.triangles() == (if with_mesh {
            chunk_triangles(chunk.data@)
        } else {
            Seq::empty()
        }),
{
    let data = ChunkData::new(slot.chunk_index, slot.pos, chunk_size, chunk_div, sampler);
    let mesh = if with_mesh {
        SimpleMeshBuilder.build_mesh(&data)
    } else {
        EmptyMeshBuilder.build_mesh(&data)
    };
    ProducedChunk { chunk_index: slot.chunk_index, world_position: slot.pos, data, mesh }
}

/// A running loop waits for a command only after a poll that found the queue
/// empty, and only when no waiting slot is in range.
pub proof fn lemma_loop_waits_only_without_work(window: WorldState, state: BackendState, event: BackendEvent)
    ensures
        step_of(window, state, event).2 == BackendAction::AwaitCommand <==> state == BackendState::Running
            && event == BackendEvent::QueueEmpty && window.nearest().is_none(),
{
}

/// A loop that has ended stays ended, and one that drains ends with the
/// next event; neither touches the window.
pub proof fn lemma_ended_loops_stay_ended(window: WorldState, state: BackendState, event: BackendEvent)
    requires
        state != BackendState::Running,
    ensures
        step_of(window, state, event) == (window, BackendState::Terminated, BackendAction::Stop),
{
}

} // verus!
