//! Verified runtime core of the mimium-to-Rust benchmark programs: the
//! word encoding of values and handles, the per-function state storage
//! with its delay lines, the memory, array and closure stores, and the
//! bookkeeping of a running program. The sample-level DSP code, which is
//! floating point, is built on top of this crate outside of it.

pub mod arrays;
pub mod blocks;
pub mod builtins;
pub mod closures;
pub mod faust;
pub mod memory;
pub mod program;
pub mod state;
pub mod text;
pub mod word;
