//! Library for a tile-based multiplayer arena game: wire codec, room and
//! session registry, deterministic arena simulation, server orchestration
//! logic and the client-side store.

pub mod arena;
pub mod arena_map;
pub mod character;
pub mod client_state;
pub mod client_store;
pub mod codec;
pub mod ids;
pub mod entity;
pub mod game;
pub mod message;
pub mod room;
pub mod server_logic;
pub mod spell;
pub mod util;
pub mod version;
