//! Mesh and texture helpers: mip chains, kit letters, box faces.

pub mod mips;
pub mod kit;
pub mod primitives;
pub mod decode;
