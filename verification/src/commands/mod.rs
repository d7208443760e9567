//! What the user interface asks for: detecting links, starting downloads,
//! steering the queue.
pub mod admission;
pub mod batch;
pub mod detect;
pub mod ids;
pub mod laws;
pub mod quark;
pub mod queue;
pub mod show;
pub mod start;
