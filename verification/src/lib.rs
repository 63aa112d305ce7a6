//! Verified core of a classic snake game: a bounded grid board, a growing
//! snake with duplicate-aware occupancy tracking, and a tick-by-tick
//! simulation engine that decides life, death and win outcomes.

pub mod board;
pub mod command;
pub mod direction;
pub mod simulation;
pub mod snake;
pub mod vector2;

pub use board::Board;
pub use command::GameCommand;
pub use direction::Direction;
pub use simulation::{create_game, DeathReason, SimulationParameterError, SimulationResult, SnakeSimulation};
pub use snake::Snake;
pub use vector2::Vector2;
