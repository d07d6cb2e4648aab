//! Simulation core of a wormhole-tunnel shooter: logical input state, the rocket launcher and
//! projectile state machines, the fixed-timestep accumulator, the game-state stack and the
//! image handle table, each with a machine-checked contract.

pub mod components;
pub mod gamestates;
pub mod inputstate;
pub mod resources;
pub mod systems;
pub mod timestep;
