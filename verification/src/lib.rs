//! Rules engine for a competitive tile-placement and economy board game played
//! on a hexagonal planetary board.
//!
//! The crate models the shared planetary board, the per-player economy, the
//! card catalog, the atomic game-operation log that mutates a game, and the
//! combinatorial search over card purchases and plays for one generation.
pub mod board;
pub mod card;
pub mod engine;
pub mod game;
pub mod resource;
pub mod sim;
pub mod snapshot;
