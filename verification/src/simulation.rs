//! The simulation engine: composes a board, a snake and a food position,
//! owns the per-tick rules, outcome determination and terminal-state
//! latching.

use vstd::prelude::*;

use crate::board::{
    count_matching, is_decided, lemma_count_matching_le_set_len, lemma_count_matching_subset,
    taken_set, Board,
};
use crate::direction::Direction;
use crate::snake::Snake;
use crate::vector2::Vector2;

verus! {

/// Builds a standard game: a board of `width` by `height` cells starting at
/// `(1, 1)`, a length-1 snake three cells left of the centre facing right,
/// and the food three cells right of the centre.
pub fn create_game(width: u16, height: u16) -> (r: Result<
    SnakeSimulation,
    SimulationParameterError,
>)
    requires
        width >= 1,
        height >= 1,
    ensures
        ({
            let cx = width as int / 2;
            let cy = height as int / 2;
            let start = (Vector2 { x: (cx - 3) as i32, y: cy as i32 });
            let food = (Vector2 { x: (cx + 3) as i32, y: cy as i32 });
            let food_ok = 1 <= cx + 3 < width + 1 && 1 <= cy < height + 1;
            let start_ok = 1 <= cx - 3 < width + 1 && 1 <= cy < height + 1;
            &&& (!food_ok ==> r == Err::<SnakeSimulation, _>(
                SimulationParameterError::FoodOutOfBounds,
            ))
            &&& (food_ok && !start_ok ==> r == Err::<SnakeSimulation, _>(
                SimulationParameterError::SnakeOutOfBounds,
            ))
            &&& (food_ok && start_ok ==> match r {
                Ok(sim) => {
                    &&& sim.wf()
                    &&& sim.spec_board().spec_min_x() == 1
                    &&& sim.spec_board().spec_max_x() == width + 1
                    &&& sim.spec_board().spec_min_y() == 1
                    &&& sim.spec_board().spec_max_y() == height + 1
                    &&& sim.spec_snake().spec_body() == seq![start]
                    &&& sim.spec_snake().spec_facing() == Direction::Right
                    &&& sim.spec_snake().spec_last_move() == Direction::Right
                    &&& sim.spec_food() == food
                    &&& sim.spec_result() is None
                },
                Err(_) => false,
            })
        }),
{
    let w_i32 = width as i32;
    let h_i32 = height as i32;
    let center = Vector2 { x: (width / 2) as i32, y: (height / 2) as i32 };
    let start = center.neighbour(Direction::Left, 3);
    let food = center.neighbour(Direction::Right, 3);
    proof {
        assert((w_i32 + 1 - 1) * (h_i32 + 1 - 1) <= usize::MAX) by (nonlinear_arith)
            requires
                1 <= w_i32 <= 0xffff,
                1 <= h_i32 <= 0xffff,
                usize::MAX >= 0xffff_ffff,
        ;
    }
    let board = Board::new((1, w_i32 + 1), (1, h_i32 + 1));
    let snake = Snake::new(start, Direction::Right);
    let r = SnakeSimulation::new(board, snake, food);
    proof {
        let body = snake.spec_body();
        if board.in_bounds(food) {
            assert(body.drop_first() =~= Seq::<Vector2>::empty());
            assert(body_validation(board, body.drop_first(), food) is None);
        }
    }
    r
}

/// Describes the outcome of a [`SnakeSimulation`].
#[derive(PartialEq, Eq, Structural, Debug, Clone, Copy)]
pub enum SimulationResult {
    /// The snake died for the specified reason.
    Died(DeathReason),
    /// The game was manually terminated.
    ManuallyTerminated,
    /// The simulation is complete. There is no more food to consume.
    Won,
}

/// Describes the reason a [`SnakeSimulation`] ended with
/// [`SimulationResult::Died`].
#[derive(PartialEq, Eq, Structural, Debug, Clone, Copy)]
pub enum DeathReason {
    /// The snake collided with an edge of the board.
    HitWall,
    /// The snake collided with itself.
    HitSelf,
}

/// A parameter handed to [`SnakeSimulation::new`] was invalid.
#[derive(PartialEq, Eq, Structural, Debug, Clone, Copy)]
pub enum SimulationParameterError {
    /// One or more parts of the provided snake is out of the bounds of the
    /// provided board.
    SnakeOutOfBounds,
    /// The provided food position is out of the bounds of the provided board.
    FoodOutOfBounds,
    /// The provided snake and food position overlap.
    SnakeOverlapsFood,
}

impl SimulationParameterError {
    /// A human-readable description of the error.
    pub fn message(&self) -> (r: &'static str)
        ensures
            self is SnakeOutOfBounds ==> r@ == "snake covers out-of-bounds positions"@,
            self is FoodOutOfBounds ==> r@ == "given food position outside the bounds of board"@,
            self is SnakeOverlapsFood ==> r@ == "given food position covered by snake"@,
    {
        match self {
            Self::SnakeOutOfBounds => "snake covers out-of-bounds positions",
            Self::FoodOutOfBounds => "given food position outside the bounds of board",
            Self::SnakeOverlapsFood => "given food position covered by snake",
        }
    }
}

/// The first violation that checking `body` cell by cell against the board
/// and the food position reports: an out-of-bounds cell wins over a food
/// overlap at the same cell, and an earlier cell wins over a later one.
pub open spec fn body_validation(board: Board, body: Seq<Vector2>, food: Vector2) -> Option<
    SimulationParameterError,
>
    decreases body.len(),
{
    if body.len() == 0 {
        None
    } else if !board.in_bounds(body.first()) {
        Some(SimulationParameterError::SnakeOutOfBounds)
    } else if body.first() == food {
        Some(SimulationParameterError::SnakeOverlapsFood)
    } else {
        body_validation(board, body.drop_first(), food)
    }
}

/// A body that validates cleanly lies on the board and avoids the food.
pub proof fn lemma_body_validation_none(board: Board, body: Seq<Vector2>, food: Vector2)
    requires
        body_validation(board, body, food) is None,
    ensures
        forall|i: int|
            0 <= i < body.len() ==> board.in_bounds(#[trigger] body[i]) && body[i] != food,
    decreases body.len(),
{
    if body.len() > 0 {
        lemma_body_validation_none(board, body.drop_first(), food);
        assert forall|i: int| 0 <= i < body.len() implies board.in_bounds(#[trigger] body[i])
            && body[i] != food by {
            if i > 0 {
                assert(body.drop_first()[i - 1] == body[i]);
            }
        }
    }
}

/// Represents a virtual game of classic snake. The rules are:
/// - the snake cannot intersect itself,
/// - the snake cannot go out of bounds, and does not wrap around when
///   hitting an edge,
/// - the snake grows in length by 1 when consuming food.
pub struct SnakeSimulation {
    /// The board the game is taking place on.
    board: Board,
    /// The player's snake.
    snake: Snake,
    /// The position of the food.
    food_position: Vector2,
    /// Final simulation result.
    simulation_result: Option<SimulationResult>,
}

impl SnakeSimulation {
    /// The board the game is taking place on.
    pub closed spec fn spec_board(&self) -> Board {
        self.board
    }

    /// The player's snake.
    pub closed spec fn spec_snake(&self) -> Snake {
        self.snake
    }

    /// The current food position.
    pub closed spec fn spec_food(&self) -> Vector2 {
        self.food_position
    }

    /// The terminal outcome, if it has been determined.
    pub closed spec fn spec_result(&self) -> Option<SimulationResult> {
        self.simulation_result
    }

    /// Well-formedness: the parts are well-formed, the whole snake lies on
    /// the board, so does the food, and while the simulation is running the
    /// food is not covered by the snake.
    pub open spec fn wf(&self) -> bool {
        &&& self.spec_board().wf()
        &&& self.spec_snake().wf()
        &&& forall|i: int|
            0 <= i < self.spec_snake().spec_body().len() ==> self.spec_board().in_bounds(
                #[trigger] self.spec_snake().spec_body()[i],
            )
        &&& self.spec_board().in_bounds(self.spec_food())
        &&& (self.spec_result() is None ==> !self.spec_snake().spec_body().contains(
            self.spec_food(),
        ))
    }

    /// The head cell the snake would move onto on the next tick.
    pub open spec fn spec_next_head(&self) -> Vector2 {
        self.spec_snake().spec_next_head()
    }

    /// Whether the next tick's move leaves the board.
    pub open spec fn hits_wall(&self) -> bool {
        !self.spec_board().in_bounds(self.spec_next_head())
    }

    /// Whether the next tick's move consumes the food.
    pub open spec fn will_hit_food(&self) -> bool {
        self.spec_next_head() == self.spec_food()
    }

    /// Whether the next tick's move lands on the current tail cell.
    pub open spec fn will_hit_tail(&self) -> bool {
        self.spec_next_head() == self.spec_snake().spec_tail()
    }

    /// Whether the next tick's move collides with the snake's own body.
    /// Landing on the tail cell is safe exactly when the tail is about to
    /// vacate it, which it does unless food is consumed this tick.
    pub open spec fn hits_self(&self) -> bool {
        self.spec_snake().spec_body().contains(self.spec_next_head()) && !(self.will_hit_tail()
            && !self.will_hit_food())
    }

    /// Create a new [`SnakeSimulation`] from a board and a snake, with the
    /// food positioned at `food_position`.
    pub fn new(board: Board, snake: Snake, food_position: Vector2) -> (r: Result<
        Self,
        SimulationParameterError,
    >)
        requires
            board.wf(),
            snake.wf(),
        ensures
            !board.in_bounds(food_position) ==> r == Err::<Self, _>(
                SimulationParameterError::FoodOutOfBounds,
            ),
            board.in_bounds(food_position) ==> match body_validation(
                board,
                snake.spec_body(),
                food_position,
            ) {
                Some(e) => r == Err::<Self, _>(e),
                None => r matches Ok(sim) && sim.wf() && sim.spec_board() == board
                    && sim.spec_snake() == snake && sim.spec_food() == food_position
                    && sim.spec_result() is None,
            },
    {
        if !board.contains(&food_position) {
            return Err(SimulationParameterError::FoodOutOfBounds);
        }
        let ghost body = snake.spec_body();
        let cells = snake.body_iter();
        let n = cells.len();
        let mut i: usize = 0;
        proof {
            assert(body.skip(0) =~= body);
        }
        while i < n
            invariant
                i <= n,
                n == body.len(),
                body == snake.spec_body(),
                cells@ == body,
                board.wf(),
                snake.wf(),
                board.in_bounds(food_position),
                body_validation(board, body, food_position) == body_validation(
                    board,
                    body.skip(i as int),
                    food_position,
                ),
            decreases n - i,
        {
            let cell = cells[i];
            proof {
                assert(body.skip(i as int).len() > 0);
                assert(body.skip(i as int).first() == body[i as int]);
                assert(body.skip(i as int).drop_first() =~= body.skip(i as int + 1));
            }
            if !board.contains(&cell) {
                return Err(SimulationParameterError::SnakeOutOfBounds);
            }
            if food_position == cell {
                return Err(SimulationParameterError::SnakeOverlapsFood);
            }
            i = i + 1;
        }
        proof {
            assert(body.skip(n as int) =~= Seq::<Vector2>::empty());
            lemma_body_validation_none(board, body, food_position);
        }
        Ok(Self { board, snake, food_position, simulation_result: None })
    }

    /// Hook to request the simulation to be quit. Latches
    /// [`SimulationResult::ManuallyTerminated`] while the simulation is still
    /// running; an outcome that has already landed is never overwritten.
    pub fn quit(&mut self)
        ensures
            final(self).spec_board() == old(self).spec_board(),
            final(self).spec_snake() == old(self).spec_snake(),
            final(self).spec_food() == old(self).spec_food(),
            final(self).spec_result() == if old(self).spec_result() is None {
                Some(SimulationResult::ManuallyTerminated)
            } else {
                old(self).spec_result()
            },
            old(self).wf() ==> final(self).wf(),
    {
        if self.simulation_result.is_none() {
            self.simulation_result = Some(SimulationResult::ManuallyTerminated);
        }
    }

    /// Hook to change the player's movement direction. The change is
    /// rejected silently when it would reverse the most recent committed
    /// move.
    pub fn change_player_move_direction(&mut self, new_direction: Direction)
        ensures
            final(self).spec_board() == old(self).spec_board(),
            final(self).spec_food() == old(self).spec_food(),
            final(self).spec_result() == old(self).spec_result(),
            final(self).spec_snake().spec_body() == old(self).spec_snake().spec_body(),
            final(self).spec_snake().spec_last_move() == old(self).spec_snake().spec_last_move(),
            final(self).spec_snake().spec_facing() == if new_direction != old(
                self,
            ).spec_snake().spec_last_move().flip() {
                new_direction
            } else {
                old(self).spec_snake().spec_facing()
            },
            old(self).wf() ==> final(self).wf(),
    {
        let _ = self.snake.try_set_facing(new_direction);
    }

    /// Get the final result of the simulation, if it has been determined.
    pub fn result(&self) -> (r: Option<&SimulationResult>)
        ensures
            match r {
                Some(v) => self.spec_result() == Some(*v),
                None => self.spec_result() is None,
            },
    {
        self.simulation_result.as_ref()
    }

    /// Get a shared reference to the [`Snake`] being simulated.
    pub fn snake(&self) -> (r: &Snake)
        ensures
            *r == self.spec_snake(),
    {
        &self.snake
    }

    /// Get a shared reference to the [`Board`] the simulation is happening
    /// on.
    pub fn board(&self) -> (r: &Board)
        ensures
            *r == self.spec_board(),
    {
        &self.board
    }

    /// Get a shared reference to the [`Vector2`] representing the current
    /// food position.
    pub fn food_position(&self) -> (r: &Vector2)
        ensures
            *r == self.spec_food(),
    {
        &self.food_position
    }

    /// Attempts to find a random valid location for a new piece of food:
    /// a board cell the snake does not cover. Succeeds whenever the snake is
    /// shorter than the board's cell count; returns `None` when the snake
    /// covers at least as many cells as the board has.
    fn random_valid_food_position(&self) -> (r: Option<Vector2>)
        requires
            self.spec_board().wf(),
            self.spec_snake().wf(),
        ensures
            r matches Some(cell) ==> self.spec_board().in_bounds(cell)
                && !self.spec_snake().spec_body().contains(cell),
            self.spec_snake().spec_body().len() < self.spec_board().spec_total() ==> r is Some,
            self.spec_snake().spec_body().len() >= self.spec_board().spec_total() ==> r is None,
    {
        let snake = &self.snake;
        let is_taken = |cell: &Vector2| -> (b: bool)
            ensures
                b == snake.spec_body().contains(*cell),
            { snake.contains(cell) };
        let r = self.board.random_free_cell(self.snake.len(), is_taken);
        proof {
            let body = self.spec_snake().spec_body();
            let cells = self.spec_board().cell_seq();
            assert(is_decided(is_taken));
            assert forall|c: Vector2| taken_set(is_taken).contains(c) implies body.to_set().contains(
                c,
            ) by {
                assert(call_ensures(is_taken, (&c,), true));
            }
            lemma_count_matching_subset(cells, taken_set(is_taken), body.to_set());
            self.spec_board().lemma_cell_seq_no_duplicates();
            body.lemma_cardinality_of_set();
            lemma_count_matching_le_set_len(cells, body.to_set());
            assert(count_matching(cells, taken_set(is_taken)) <= body.len());
        }
        r
    }

    /// Set the simulation result and return it back to the caller.
    fn terminate(&mut self, result: SimulationResult) -> (r: Option<&SimulationResult>)
        ensures
            final(self).spec_board() == old(self).spec_board(),
            final(self).spec_snake() == old(self).spec_snake(),
            final(self).spec_food() == old(self).spec_food(),
            final(self).spec_result() == Some(result),
            r matches Some(v) && *v == result,
    {
        self.simulation_result = Some(result);
        self.simulation_result.as_ref()
    }

    /// Step the simulation forward by one tick. The snake moves in its
    /// facing direction, possibly consuming food and growing. If the player
    /// wins or dies this tick, the outcome is latched and returned;
    /// otherwise `None` is returned. Once an outcome has landed, further
    /// calls change nothing and keep returning it.
    pub fn advance(&mut self) -> (r: Option<&SimulationResult>)
        requires
            old(self).wf(),
        ensures
            final(self).wf(),
            final(self).spec_board() == old(self).spec_board(),
            match r {
                Some(v) => final(self).spec_result() == Some(*v),
                None => final(self).spec_result() is None,
            },
            old(self).spec_result() is Some ==> *final(self) == *old(self),
            old(self).spec_result() is None && old(self).hits_wall() ==> {
                &&& final(self).spec_result() == Some(
                    SimulationResult::Died(DeathReason::HitWall),
                )
                &&& final(self).spec_snake() == old(self).spec_snake()
                &&& final(self).spec_food() == old(self).spec_food()
            },
            old(self).spec_result() is None && !old(self).hits_wall() && old(self).hits_self()
                ==> {
                &&& final(self).spec_result() == Some(
                    SimulationResult::Died(DeathReason::HitSelf),
                )
                &&& final(self).spec_snake() == old(self).spec_snake()
                &&& final(self).spec_food() == old(self).spec_food()
            },
            old(self).spec_result() is None && !old(self).hits_wall() && !old(self).hits_self()
                ==> {
                &&& final(self).spec_snake().spec_facing() == old(self).spec_snake().spec_facing()
                &&& final(self).spec_snake().spec_last_move() == old(
                    self,
                ).spec_snake().spec_facing()
                &&& (!old(self).will_hit_food() ==> {
                    &&& final(self).spec_result() is None
                    &&& final(self).spec_food() == old(self).spec_food()
                    &&& final(self).spec_snake().spec_body() == seq![old(self).spec_next_head()]
                        + old(self).spec_snake().spec_body().drop_last()
                })
                &&& (old(self).will_hit_food() ==> {
                    &&& final(self).spec_snake().spec_body() == seq![old(self).spec_next_head()]
                        + old(self).spec_snake().spec_body()
                    &&& (old(self).spec_snake().spec_body().len() + 1 < old(
                        self,
                    ).spec_board().spec_total() ==> {
                        &&& final(self).spec_result() is None
                        &&& final(self).spec_board().in_bounds(final(self).spec_food())
                        &&& !final(self).spec_snake().spec_body().contains(final(self).spec_food())
                    })
                    &&& (old(self).spec_snake().spec_body().len() + 1 >= old(
                        self,
                    ).spec_board().spec_total() ==> {
                        &&& final(self).spec_result() == Some(SimulationResult::Won)
                        &&& final(self).spec_food() == old(self).spec_food()
                    })
                })
            },
    {
        // Short circuit advancement and return the stored result if the
        // simulation has already ended.
        if self.simulation_result.is_some() {
            return self.simulation_result.as_ref();
        }
        proof {
            assert(self.spec_board().in_bounds(self.spec_snake().spec_body()[0]));
            assert(self.spec_snake().next_head_fits());
        }
        let speculative_head = self.snake.next_head_position();

        if !self.board.contains(&speculative_head) {
            return self.terminate(SimulationResult::Died(DeathReason::HitWall));
        }
        // Check whether the snake is about to run into itself.
        let snake_will_hit_food = speculative_head == self.food_position;
        let snake_will_hit_tail = speculative_head == *self.snake.tail();

        if self.snake.contains(&speculative_head) && (!snake_will_hit_tail || snake_will_hit_food) {
            return self.terminate(SimulationResult::Died(DeathReason::HitSelf));
        }
        let ghost old_body = self.spec_snake().spec_body();
        let ghost new_head = self.spec_next_head();

        // The snake advances before the food respawns, else the food could
        // spawn exactly where the head ends up.
        self.snake.advance(snake_will_hit_food);
        proof {
            let body = self.spec_snake().spec_body();
            assert forall|i: int| 0 <= i < body.len() implies self.spec_board().in_bounds(
                #[trigger] body[i],
            ) by {
                if i > 0 {
                    if snake_will_hit_food {
                        assert(body[i] == old_body[i - 1]);
                    } else {
                        assert(body[i] == old_body.drop_last()[i - 1]);
                        assert(old_body.drop_last()[i - 1] == old_body[i - 1]);
                    }
                }
            }
        }
        if !snake_will_hit_food {
            proof {
                let body = self.spec_snake().spec_body();
                if body.contains(self.spec_food()) {
                    let i = choose|i: int| 0 <= i < body.len() && body[i] == self.spec_food();
                    if i > 0 {
                        assert(old_body[i - 1] == self.spec_food());
                    }
                }
            }
            return None;
        }
        let spawn_result = self.random_valid_food_position();
        match spawn_result {
            Some(position) => {
                self.food_position = position;
                None
            },
            None => {
                // Food could not spawn, which only happens when the snake
                // covers the whole board: the player has won.
                self.terminate(SimulationResult::Won)
            },
        }
    }
}

} // verus!
