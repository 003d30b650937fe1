//! Core engine of a falling-block puzzle game.
//!
//! The engine is split into the tile map (the playfield grid with its wall
//! ring), the falling block (shape sampling, rotation, collision with
//! rollback) and the game state machine (gravity clock, landing, row
//! clearing, scoring, pause/game-over/restart sequencing).  Rendering,
//! audio and input plumbing live outside; they talk to this crate through
//! plain values only.

pub mod ext;
pub mod rotation;
pub mod shape;
pub mod tile_map;
pub mod block;
pub mod session;
