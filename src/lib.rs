//! A per-worker cooperative event loop: a priority/throttling task queue fed by a
//! channel, and the decisions that turn the messages of several sources into one
//! processed batch.

pub mod chan;
pub mod event_loop;
pub mod headless;
pub mod task_queue;
