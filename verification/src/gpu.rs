//! The accelerator side of the engine: what is launched, with which geometry and tables, and what the
//! host decides between launches.

pub mod attn;
pub mod balance;
pub mod drafter;
pub mod ffn;
pub mod fitting;
pub mod flow;
pub mod flow_blocks;
pub mod flow_draft;
pub mod flow_layers;
pub mod flow_passes;
pub mod flow_single;
pub mod flow_slots;
pub mod flow_steps;
pub mod flow_tiles;
pub mod flow_token;
pub mod flow_verify;
pub mod forest;
pub mod forward;
pub mod gates;
pub mod gdn;
pub mod gemm;
pub mod generate;
pub mod invariance;
pub mod loader;
pub mod lockstep;
pub mod machine;
pub mod machine_single;
pub mod meaning;
pub mod model;
pub mod modules;
pub mod mtp;
pub mod packing;
pub mod parallel;
pub mod passes;
pub mod pool;
pub mod probes;
pub mod program;
pub mod single;
pub mod single_calls;
pub mod slots;
pub mod steps;
pub mod tiled;
pub mod topo;
pub mod tree;
pub mod verify;
