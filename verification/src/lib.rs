//! Assembly Mechs: Beyond WasmDome, the verified core of the arena.
//!
//! Commands are handled by aggregates that emit events; applying those events
//! to an aggregate's state yields the next state. The game board, the match
//! aggregate, the radar, the leaderboard and the supporting helpers of the
//! services live here, each function with its contract.

pub mod seqs;
pub mod geometry;
pub mod registers;
pub mod commands;
pub mod events;
pub mod radar;
pub mod state;
pub mod text;
pub mod engine;
pub mod leaderboard;
pub mod laws;
pub mod sightlines;
pub mod protocol;
pub mod store;

pub mod sdk;
pub mod npc;
pub mod turns;
pub mod coordinator;
pub mod scheduler;
pub mod historian;
pub mod arena;
pub mod creds;
pub mod hosting;
pub mod cli;
