//! LLB: the low-level build graph that BuildKit solves.
pub mod pb;
pub mod graph;
pub mod source;
pub mod ops;
pub mod state;
