//! Core of a mirroring tool for a paginated course-content API: a task-graph
//! engine with counter-based quiescence detection, an admission controller
//! with bounded concurrency and randomized-backoff retry, a pagination
//! cursor rule, a change-detection filter, and an atomic download state
//! machine.  Remote calls and filesystem probes are made by a thin driver
//! around this crate; every decision the mirror makes is specified and
//! verified here.

pub mod discover;
pub mod download;
pub mod engine;
pub mod extract;
pub mod filter;
pub mod html;
pub mod paginate;
pub mod names;
pub mod timestamp;
pub mod resources;
pub mod retry;
pub mod textutil;
pub mod urlinfo;
pub mod video;
