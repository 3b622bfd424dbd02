//! Discrete core of the RLBot <-> RocketSim conversion and enrichment library.
//!
//! Everything here works on integers, booleans and small enums: the car body
//! table, match configuration checks, packet validation, the player layout
//! that ties RLBot participants to simulated cars, the frame/phase rules that
//! decide when the simulation advances, and the air-state rules used when a
//! simulated car is reported back to RLBot.

pub mod arena;
pub mod body;
pub mod enrich;
pub mod game;
pub mod to_rlbot;
pub mod match_context;
