//! Planning, bookkeeping and data-layout rules of a batched inference engine.

pub mod bits;
pub mod checkpoint;
pub mod config;
pub mod gpu;
pub mod json;
pub mod kernels;
pub mod knobs;
pub mod kv_cache;
pub mod memory;
pub mod memwatch;
pub mod mma;
pub mod model;
pub mod net;
pub mod otel;
pub mod ple;
pub mod ple_table;
pub mod recipe;
pub mod seqs;
pub mod shard;
pub mod tensors;
pub mod text;
pub mod vocab;
