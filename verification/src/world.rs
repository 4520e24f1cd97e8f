//! The streaming window: which chunk slots exist, where they lie, and which
//! of them is produced next.
pub mod builder;
pub mod laws;
pub mod local;
pub mod locator;
pub mod pipeline;
