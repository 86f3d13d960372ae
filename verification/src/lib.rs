//! Scheduling core of a status-line generator: a fixed set of blocks, each
//! re-rendered on its own cadence, merged into one ordered frame.
//!
//! The library decides and never waits: it runs no command, reads no clock
//! and writes no frame. Its caller does that, and tells it what happened.
//! Instants and intervals are milliseconds on the caller's clock. Blocks
//! are numbered from 0 in the order in which they were configured.
//!
//! - [`queue`]: the pending due times, at most one for each block.
//! - [`scheduler`]: which block renders when, and the laws it obeys.
//! - [`frame`]: the latest output of every block, merged in block order.
//! - [`router`]: which blocks a signal or a click is for.
//! - [`block`]: what the core asks of every block.
//! - [`custom`]: the block that shows the output of a shell command.

pub mod block;
pub mod channel;
pub mod custom;
pub mod cycle;
pub mod error;
pub mod frame;
pub mod queue;
pub mod router;
pub mod scheduler;
pub mod signals;
pub mod text;
pub mod update;
pub mod widget;
