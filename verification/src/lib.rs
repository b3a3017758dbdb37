//! Client-side logic of the game client: the debug console, the
//! multiplayer session and its queues, asset packs, textures and box
//! topology, input routing and mounted-play control decisions, load slots
//! for presented objects, and small lookup tables.

pub mod debug;
pub mod mp;
pub mod text;
pub mod preferences;
pub mod pack;
pub mod mesh;
pub mod mesh_unlit;
pub mod present;
pub mod input;
pub mod map;
pub mod glyphs;
pub mod keys;
pub mod play;
