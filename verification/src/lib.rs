//! Simulation core of a drilling game: a drill descends through generated
//! minerals on fuel routed through an editable graph of nodes.
//!
//! The state of a game is a [`model::Model`]. Between two ticks the graph is
//! edited and items are bought; [`model::Model::update`] advances the game by
//! one tick: it resolves what the wiring gives to each node, moves the drill,
//! collides it with the level and the minerals, draws fuel, and generates the
//! level ahead.
//!
//! All quantities are fixed-point integers (see [`scalar`]), so that every
//! function has an exact contract. What happens at random (where minerals
//! lie, which items are drawn for the shop) is drawn from the `rand` crate;
//! the contracts then state what holds whatever was drawn. Short-lived
//! entities live in arenas of the `stecs` crate.
//!
//! The module [`laws`] holds what follows from the contracts across functions.

pub mod bounded;
pub mod collider;
pub mod geometry;
pub mod interaction;
pub mod laws;
pub mod model;
pub mod random;
pub mod scalar;
