//! The rules of Lance's C interface: what its caches, scanners, datasets and index
//! segments accept, decide and report.
//!
//! Nothing here performs I/O or touches foreign memory. Callers hand in plain
//! values, such as what a disk lookup, a stream or a decoder returned, and take
//! plain values back: a plan, the next step, an error with its code and text.
//!
//! - Reads of data files: `data_blocks`, `data_read`, `foyer_data_cache`,
//!   `data_cache`.
//! - Index entries on disk: `foyer_index_cache`, and `cache_keys` for the keys that
//!   both kinds of entries share one cache under.
//! - Cache directories and sessions: `foyer_cache`, `session`.
//! - Datasets: `dataset`, `restore`, `writer`.
//! - Scans: `scanner` for the handle, `scan_plan` for the order of its steps,
//!   `scan_run` for iteration and completion, `wakers` for polled scans.
//! - Index segments: `segment_options`, `segment_model`, `segment_array`,
//!   `segment_builder`, `segment_metadata`, and `progress` for builds under way.
//! - Errors, arguments, kinds, texts and byte buffers: `error`, `helpers`, `index`,
//!   `text`, `octets`.

pub mod cache_keys;
pub mod data_blocks;
pub mod data_cache;
pub mod data_read;
pub mod dataset;
pub mod error;
pub mod foyer_cache;
pub mod foyer_data_cache;
pub mod foyer_index_cache;
pub mod helpers;
pub mod index;
pub mod octets;
pub mod progress;
pub mod restore;
pub mod scan_plan;
pub mod scan_run;
pub mod scanner;
pub mod segment_array;
pub mod segment_builder;
pub mod segment_metadata;
pub mod segment_model;
pub mod segment_options;
pub mod session;
pub mod text;
pub mod wakers;
pub mod writer;
