//! A grid-based Snake game with the pieces of a small reinforcement-learning
//! loop around it: the board's state machine, the environment that rewards
//! each tick, and the action-selection policy of the agent.
//!
//! Every function here is verified against a mathematical model of the board.

pub mod agent;
pub mod board;
pub mod env;
pub mod free_cells;
pub mod game;
pub mod policy;
pub mod render;
pub mod rng;
pub mod training;

pub use agent::RandomAgent;
pub use board::{Board, Cell, Direction};
pub use env::{Env, Observation};
pub use game::{Game, HEIGHT, WIDTH};
