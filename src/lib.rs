//! Decoding of scenario ("CHK") chunks and tileset tables, and composition of
//! a map's terrain into an RGB bitmap.
pub mod assets;
pub mod bytes;
pub mod chk;
pub mod container;
pub mod cv5;
pub mod error;
pub mod fs;
pub mod loader;
pub mod map;
pub mod mpq;
pub mod terrain;
pub mod vf4;
pub mod vr4;
pub mod vx4;
pub mod wpe;
