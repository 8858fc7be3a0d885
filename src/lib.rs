//! Building blocks of a multi-pass TeX build: a cancellation flag, the
//! deterministic reordering of auxiliary index files, the choice of a TeX
//! backend and the steps of one render job.

pub mod error;
pub mod field;
pub mod input;
pub mod interrupt;
pub mod job;
pub mod opts;
pub mod paths;
pub mod pattern;
pub mod reorder;
pub mod resolve;
pub mod tex;
pub mod text;
