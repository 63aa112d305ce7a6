//! The commands a player (or automated system) can feed into the game.

use vstd::prelude::*;

use crate::direction::Direction;

verus! {

/// The types of commands a user (or automated system) can input into the
/// game.
#[derive(Debug, PartialEq, Eq, Structural, Clone, Copy)]
pub enum GameCommand {
    /// Command to change the direction of the snake.
    ChangeDirection(Direction),
    /// Command to quit the game.
    Quit,
}

impl GameCommand {
    /// The command bound to a pressed character key, if any: `w`, `a`, `s`
    /// and `d` steer the snake, `q` quits.
    pub fn from_key_char(c: char) -> (r: Option<GameCommand>)
        ensures
            r == match c {
                'w' => Some(GameCommand::ChangeDirection(Direction::Up)),
                'a' => Some(GameCommand::ChangeDirection(Direction::Left)),
                's' => Some(GameCommand::ChangeDirection(Direction::Down)),
                'd' => Some(GameCommand::ChangeDirection(Direction::Right)),
                'q' => Some(GameCommand::Quit),
                _ => None::<GameCommand>,
            },
    {
        match c {
            'w' => Some(GameCommand::ChangeDirection(Direction::Up)),
            'a' => Some(GameCommand::ChangeDirection(Direction::Left)),
            's' => Some(GameCommand::ChangeDirection(Direction::Down)),
            'd' => Some(GameCommand::ChangeDirection(Direction::Right)),
            'q' => Some(GameCommand::Quit),
            _ => None,
        }
    }
}

} // verus!
