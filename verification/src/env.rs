//! The environment that an agent plays in: it turns an action into a move,
//! rewards the move, and shows the agent what the board looks like.

use vstd::prelude::*;
use crate::board::{playable, Board, Cell, Direction};
use crate::game::Game;

verus! {

/// The reward for a tick that ends the episode.
pub const REWARD_COLLISION: i32 = -1;

/// The reward for a tick on which the snake eats.
pub const REWARD_FOOD: i32 = 1;

/// The reward for any other tick.
pub const REWARD_MOVE: i32 = 0;

/// What the agent sees of the board, in whole numbers.
///
/// The six features of the agent's input are the ratios `head_x / width`,
/// `head_y / height`, `food_x / width`, `food_y / height`, followed by
/// `heading_x` and `heading_y`, the unit step of the snake's heading.
#[derive(Clone, Copy, PartialEq, Eq, Structural, Debug)]
pub struct Observation {
    pub head_x: usize,
    pub head_y: usize,
    pub food_x: usize,
    pub food_y: usize,
    pub heading_x: i8,
    pub heading_y: i8,
    pub width: usize,
    pub height: usize,
}

impl Observation {
    /// The cell under the snake's head.
    pub open spec fn head(self) -> Cell {
        (self.head_x, self.head_y)
    }

    /// The cell that holds the food.
    pub open spec fn food(self) -> Cell {
        (self.food_x, self.food_y)
    }
}

/// What a board looks like to the agent.
pub open spec fn observe(b: Board) -> Observation {
    Observation {
        head_x: b.head().0,
        head_y: b.head().1,
        food_x: b.food.0,
        food_y: b.food.1,
        heading_x: b.direction.dx() as i8,
        heading_y: b.direction.dy() as i8,
        width: b.width,
        height: b.height,
    }
}

/// The heading that an action asks for. Actions 0 to 3 are up, down, left
/// and right; any other number asks for the heading the snake already has.
pub open spec fn wanted_heading(action: usize, current: Direction) -> Direction {
    if action == 0 {
        Direction::Up
    } else if action == 1 {
        Direction::Down
    } else if action == 2 {
        Direction::Left
    } else if action == 3 {
        Direction::Right
    } else {
        current
    }
}

/// The reward for the tick that starts on the board `b`, its heading
/// already turned.
pub open spec fn reward_for(b: Board) -> int {
    if b.blocked() {
        REWARD_COLLISION as int
    } else if b.eats() {
        REWARD_FOOD as int
    } else {
        REWARD_MOVE as int
    }
}

/// Computes [`wanted_heading`].
pub fn heading_for(action: usize, current: Direction) -> (d: Direction)
    ensures
        d == wanted_heading(action, current),
{
    match action {
        0 => Direction::Up,
        1 => Direction::Down,
        2 => Direction::Left,
        3 => Direction::Right,
        _ => current,
    }
}

/// One game, played through actions and rewards.
pub struct Env {
    pub game: Game,
}

impl View for Env {
    type V = Board;

    open spec fn view(&self) -> Board {
        self.game@
    }
}

impl Env {
    /// An environment with a fresh game on a grid of the given size, or
    /// `None` when no game can start on such a grid.
    pub fn new(width: usize, height: usize) -> (r: Option<Env>)
        ensures
            r is Some <==> playable(width, height),
            r matches Some(env) ==> {
                &&& env@.is_initial()
                &&& env@.wf()
                &&& env@.width == width
                &&& env@.height == height
            },
    {
        match Game::new(width, height) {
            Some(game) => Some(Env { game }),
            None => None,
        }
    }

    /// What the agent sees of the current board. The board is left as it is.
    pub fn get_state(&self) -> (obs: Observation)
        requires
            self@.snake.len() > 0,
        ensures
            obs == observe(self@),
    {
        let head = self.game.snake[0];
        let heading = self.game.direction_to_vec();
        Observation {
            head_x: head.0,
            head_y: head.1,
            food_x: self.game.food.0,
            food_y: self.game.food.1,
            heading_x: heading.0,
            heading_y: heading.1,
            width: self.game.width,
            height: self.game.height,
        }
    }

    /// Whether [`Env::step`] may be called with this action: the move it
    /// leads to does not eat the food on a board with no other free cell.
    pub fn can_step(&self, action: usize) -> (b: bool)
        requires
            self@.wf(),
        ensures
            b == self@.turn(wanted_heading(action, self@.direction)).can_update(),
    {
        let mut probe = self.game.clone();
        probe.set_direction(heading_for(action, self.game.direction));
        probe.can_update()
    }

    /// Plays one tick with the given action and returns what the agent sees
    /// afterwards, the reward, and whether the episode is over.
    ///
    /// The action turns the snake, unless it asks for the reverse heading or
    /// is no action at all. The reward is -1 when the move ends the episode,
    /// 1 when the snake eats on this tick, and 0 otherwise.
    pub fn step(&mut self, action: usize) -> (r: (Observation, i32, bool))
        requires
            old(self)@.wf(),
            old(self)@.turn(wanted_heading(action, old(self)@.direction)).can_update(),
        ensures
            ({
                let turned = old(self)@.turn(wanted_heading(action, old(self)@.direction));
                &&& r.2 == turned.blocked()
                &&& r.1 == reward_for(turned)
                &&& r.2 ==> final(self)@ == turned
                &&& !r.2 ==> final(self)@ == turned.advance(final(self)@.food)
            }),
            r.0 == observe(final(self)@),
            final(self)@.wf(),
    {
        let dir = heading_for(action, self.game.direction);
        self.game.set_direction(dir);
        let ghost turned = self@;
        let food = self.game.food;
        let success = self.game.update();
        let head = self.game.snake[0];
        let reward = if !success {
            REWARD_COLLISION
        } else if head.0 == food.0 && head.1 == food.1 {
            REWARD_FOOD
        } else {
            REWARD_MOVE
        };
        proof {
            if success {
                let after = self@;
                assert(after.snake[0] == turned.target_cell());
            }
        }
        (self.get_state(), reward, !success)
    }

    /// Throws the game away, starts a fresh one on the same grid, and
    /// returns what the agent sees of it.
    pub fn reset(&mut self) -> (obs: Observation)
        requires
            playable(old(self)@.width, old(self)@.height),
        ensures
            final(self)@.is_initial(),
            final(self)@.wf(),
            final(self)@.width == old(self)@.width,
            final(self)@.height == old(self)@.height,
            obs == observe(final(self)@),
    {
        self.game = Game::start(self.game.width, self.game.height);
        self.get_state()
    }
}

/// After a reset the agent sees the start of an episode: the head at the
/// centre of the grid, the heading to the right, and the food on the grid
/// but not under the head.
pub proof fn lemma_initial_observation(b: Board)
    requires
        b.is_initial(),
    ensures
        observe(b).head() == (b.width / 2, b.height / 2),
        observe(b).heading_x == 1 && observe(b).heading_y == 0,
        observe(b).food() != observe(b).head(),
        observe(b).food_x < b.width && observe(b).food_y < b.height,
        observe(b).width == b.width && observe(b).height == b.height,
{
    assert(b.snake[0] == (b.width / 2, b.height / 2));
}

} // verus!
