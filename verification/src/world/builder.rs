//! What a world's owner can ask of its backend.
use crate::point::ViewPoint;
use vstd::prelude::*;

verus! {

/// A request to the backend.
#[derive(Clone, Copy, Debug, PartialEq, Eq, Structural)]
pub enum WorldCommand {
    /// The viewer now stands here.
    SetCenter(ViewPoint),
    /// Every loaded slot is to be produced again.
    UnloadAllChunks,
    /// The slot with this identity is to be produced again, if it is loaded.
    UnloadChunk(usize),
    /// The window gets another layout; nothing happens where the view
    /// distance or the chunk size is zero.
    SetChunkLayout { view_dist: u8, chunk_size: u32, chunk_div: u8 },
}

} // verus!
