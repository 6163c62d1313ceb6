//! Running a task: segments of work, the guards that watch them, and the
//! handoff from one segment to the next.

pub mod context;
pub mod guards;
pub mod handoff;
pub mod laws;
pub mod loop_;
