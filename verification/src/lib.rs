//! Verified building blocks of a BuildKit SDK: LLB graph construction and
//! serialization, session helpers, and supporting utilities.
pub mod wire;
pub mod text;
pub mod digest;
pub mod llb;
pub mod shell;
pub mod util;
pub mod session;
pub mod client;
pub mod protos;
