//! Asset and native-library build pipeline for a 2D game framework:
//! staleness gating, texture atlas packing, shader compilation planning,
//! the native build matrix and the rules of process supervision.
pub mod error;
pub mod staleness;
pub mod text;
pub mod pixels;
pub mod skyline;
pub mod atlas;
pub mod packer;
pub mod paths;
pub mod tileset;
pub mod ordering;
pub mod sources;
pub mod sokol;
pub mod lines;
pub mod docs;
pub mod commands;
pub mod manifest;
pub mod process;
pub mod shaders;
pub mod pipeline;
