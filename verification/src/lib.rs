//! Planning core of a map renderer: the integer and byte-level decisions behind texture upload,
//! mesh and material packing, draw ordering and the real-time probe grid.
//!
//! Floating-point quantities are carried as their IEEE-754 bit patterns (`u32`), so that every
//! record the GPU receives can be assembled, ordered and checked here without rounding.

pub mod config;
pub mod cube;
pub mod dds;
pub mod draw;
pub mod f32bits;
pub mod gamma;
pub mod layout;
pub mod memprof;
pub mod mesh;
pub mod pipeline;
pub mod rtgi;
pub mod sort;
pub mod terrain;
pub mod texture;
pub mod water;
pub mod words;
