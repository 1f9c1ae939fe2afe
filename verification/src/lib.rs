//! Relocates directories onto a RAM-backed volume and back again.
//!
//! The library holds the decisions: how a path is made absolute, which
//! paths are recorded as relocated, and which filesystem or volume operation
//! comes next. The caller performs each operation and reports how it went.
//!
//! One path is relocated or restored at a time, and the record is written
//! out after every change, before the next path is touched. Nothing is
//! locked: two runs on one volume and one state file at the same time are
//! not guarded against.
//!
//! What a job achieves is stated for an ideal world, which performs every
//! action faithfully: see `model`, `roundtrip` and `batch`.

pub mod apperror;
pub mod application;
pub mod batch;
pub mod apppath;
pub mod cfg;
pub mod handler;
pub mod maccmd;
pub mod model;
pub mod ram;
pub mod ramup;
pub mod roundtrip;
pub mod state;
pub mod step;
pub mod subcmd;
