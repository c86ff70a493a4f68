//! The two primitives that the serve pipeline is built from: a cell that
//! counts its changes, and a queue that can be closed. Neither blocks: where
//! a caller would have to wait, it is told so and comes back after the next
//! change.

pub mod queue;
pub mod state;

pub use queue::Queue;
pub use state::State;
