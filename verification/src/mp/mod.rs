//! Multiplayer session logic.

pub mod apply;
pub mod phase;
pub mod remotes;
pub mod cookie;
pub mod lobby;
pub mod claims;
pub mod queues;
pub mod lag;
pub use lobby::JOIN_ROOM_PREFILL;
