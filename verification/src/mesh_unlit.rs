//! The unlit character-kit path shares the lit path's kit letters,
//! animation channel paths, kit poses and texture decoding.

pub use crate::mesh::decode::decode_rgba8;
pub use crate::mesh::kit::{letter_index, AnimPath, KitPose};
