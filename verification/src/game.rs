//! The game itself: the snake, its heading and the food on a grid, advanced
//! one tick at a time.

use vstd::prelude::*;
use vstd::pervasive::unreached;
use std::collections::VecDeque;
use crate::board::{playable, lemma_advance_wf, lemma_initial_wf, Board, Cell, Direction};
use crate::free_cells::{lemma_free_total, nth_free_cell, occupies};
use crate::rng::gen_below;

verus! {

/// The width of the standard grid, in cells.
pub const WIDTH: usize = 20;

/// The height of the standard grid, in cells.
pub const HEIGHT: usize = 20;

/// A game in progress. The snake's head is at the front of `snake`.
///
/// The fields are public so that any position can be set up; the methods
/// ask for a well-formed position, which [`Game::is_well_formed`] tests.
#[derive(Debug)]
pub struct Game {
    pub width: usize,
    pub height: usize,
    pub snake: VecDeque<Cell>,
    pub direction: Direction,
    pub food: Cell,
}

impl View for Game {
    type V = Board;

    open spec fn view(&self) -> Board {
        Board {
            width: self.width,
            height: self.height,
            snake: self.snake@,
            direction: self.direction,
            food: self.food,
        }
    }
}

impl Clone for Game {
    /// A copy of the position, cell for cell.
    fn clone(&self) -> (copy: Game)
        ensures
            copy@ == self@,
    {
        let mut snake = VecDeque::new();
        let mut i: usize = 0;
        while i < self.snake.len()
            invariant
                i <= self.snake@.len(),
                snake@ == self.snake@.take(i as int),
            decreases self.snake@.len() - i,
        {
            let cell = self.snake[i];
            snake.push_back((cell.0, cell.1));
            i += 1;
            proof {
                assert(snake@ =~= self.snake@.take(i as int));
            }
        }
        proof {
            assert(snake@ =~= self.snake@);
        }
        Game {
            width: self.width,
            height: self.height,
            snake,
            direction: self.direction,
            food: (self.food.0, self.food.1),
        }
    }
}

/// Whether the cells of the snake lie on the grid and differ from each other.
pub open spec fn snake_fits(snake: Seq<Cell>, width: usize, height: usize) -> bool {
    &&& snake.no_duplicates()
    &&& forall|i: int| 0 <= i < snake.len() ==> (#[trigger] snake[i]).0 < width && snake[i].1 < height
}

/// Places the food: draws a number below the count of free cells and takes
/// the free cell with that number. Which free cell it is depends on the draw.
fn spawn_food(snake: &VecDeque<Cell>, width: usize, height: usize) -> (food: Cell)
    requires
        width * height <= usize::MAX,
        snake_fits(snake@, width, height),
        snake@.len() < width * height,
    ensures
        food.0 < width,
        food.1 < height,
        !snake@.contains(food),
{
    proof {
        lemma_free_total(snake@, width, height);
    }
    let free = width * height - snake.len();
    let mut rng = rand::thread_rng();
    let k = gen_below(&mut rng, free);
    match nth_free_cell(snake, width, height, k) {
        Some(cell) => cell,
        None => unreached(),
    }
}

impl Game {
    /// Starts a game on a grid of the given size, or returns `None` when the
    /// grid has fewer than two cells or more than a `usize` can count.
    pub fn new(width: usize, height: usize) -> (r: Option<Game>)
        ensures
            r is Some <==> playable(width, height),
            r matches Some(game) ==> {
                &&& game@.is_initial()
                &&& game@.wf()
                &&& game.width == width
                &&& game.height == height
            },
    {
        match width.checked_mul(height) {
            Some(cells) if cells >= 2 => Some(Game::start(width, height)),
            _ => None,
        }
    }

    /// Starts a game on a grid that is known to be playable.
    pub(crate) fn start(width: usize, height: usize) -> (game: Game)
        requires
            playable(width, height),
        ensures
            game@.is_initial(),
            game@.wf(),
            game.width == width,
            game.height == height,
    {
        let centre = (width / 2, height / 2);
        let mut snake = VecDeque::new();
        snake.push_back(centre);
        proof {
            assert(width > 0 && height > 0) by (nonlinear_arith)
                requires
                    2 <= width * height,
            ;
            assert(snake@ =~= seq![centre]);
        }
        let food = spawn_food(&snake, width, height);
        let game = Game { width, height, snake, direction: Direction::Right, food };
        proof {
            assert(snake@.contains(centre)) by {
                assert(snake@[0] == centre);
            }
            lemma_initial_wf(game@);
        }
        game
    }

    /// Where the head goes next, clamped at the top and left edges as the
    /// unsigned coordinates demand. A move off the grid either stays on the
    /// head or leaves through the bottom or right edge.
    fn clamped_target(&self) -> (c: Cell)
        requires
            self@.snake.len() > 0,
            self@.in_bounds(self@.head()),
        ensures
            self@.target_on_grid() ==> c == self@.target_cell(),
            (!self@.in_bounds(c) || self@.snake.contains(c)) == self@.blocked(),
    {
        let (head_x, head_y) = self.snake[0];
        proof {
            assert(self@.snake.contains(self@.snake[0]));
        }
        match self.direction {
            Direction::Up => (head_x, head_y.saturating_sub(1)),
            Direction::Down => (head_x, head_y + 1),
            Direction::Left => (head_x.saturating_sub(1), head_y),
            Direction::Right => (head_x + 1, head_y),
        }
    }

    /// Plays one tick and says whether the episode goes on.
    ///
    /// A blocked move ends the episode and changes nothing. Any other move
    /// puts the head on the target; the snake keeps its tail when it eats,
    /// and the food then moves to a free cell that the generator picks.
    pub fn update(&mut self) -> (ok: bool)
        requires
            old(self)@.wf(),
            old(self)@.can_update(),
        ensures
            ok == !old(self)@.blocked(),
            !ok ==> final(self)@ == old(self)@,
            ok ==> final(self)@ == old(self)@.advance(final(self)@.food),
            final(self)@.wf(),
            final(self)@.in_bounds(final(self)@.head()),
    {
        let new_head = self.clamped_target();
        if new_head.0 >= self.width || new_head.1 >= self.height || occupies(
            &self.snake,
            new_head,
        ) {
            proof {
                assert(self@.in_bounds(self@.snake[0]));
            }
            return false;
        }
        let ghost before = self@;
        self.snake.push_front(new_head);
        if new_head.0 == self.food.0 && new_head.1 == self.food.1 {
            proof {
                let grown = seq![new_head] + before.snake;
                assert(self.snake@ == grown);
                assert forall|i: int| 0 <= i < grown.len() implies (#[trigger] grown[i]).0
                    < self.width && grown[i].1 < self.height by {
                    if i > 0 {
                        assert(grown[i] == before.snake[i - 1]);
                        assert(before.in_bounds(before.snake[i - 1]));
                    }
                }
                assert forall|i: int, j: int|
                    0 <= i < grown.len() && 0 <= j < grown.len() && i != j implies grown[i]
                    != grown[j] by {
                    if i > 0 {
                        assert(before.snake.contains(before.snake[i - 1]));
                    }
                    if j > 0 {
                        assert(before.snake.contains(before.snake[j - 1]));
                    }
                }
            }
            self.food = spawn_food(&self.snake, self.width, self.height);
            proof {
                let grown = seq![new_head] + before.snake;
                assert(grown[0] == new_head);
                if before.snake.contains(self.food) {
                    let i = choose|i: int| 0 <= i < before.snake.len() && before.snake[i] == self.food;
                    assert(grown[i + 1] == self.food);
                }
                lemma_advance_wf(before, self.food);
            }
        } else {
            self.snake.pop_back();
            proof {
                assert(self.snake@ =~= seq![new_head] + before.snake.drop_last());
                lemma_advance_wf(before, self.food);
            }
        }
        true
    }

    /// Asks the snake to turn. The request is dropped without notice when
    /// `new_dir` is the reverse of the current heading.
    pub fn set_direction(&mut self, new_dir: Direction)
        ensures
            final(self)@ == old(self)@.turn(new_dir),
            final(self)@.wf() == old(self)@.wf(),
    {
        if new_dir != self.direction.opposite() {
            self.direction = new_dir;
        }
    }

    /// The heading as a unit step: column first, then row.
    pub fn direction_to_vec(&self) -> (v: (i8, i8))
        ensures
            v.0 == self.direction.dx(),
            v.1 == self.direction.dy(),
    {
        match self.direction {
            Direction::Up => (0, -1),
            Direction::Down => (0, 1),
            Direction::Left => (-1, 0),
            Direction::Right => (1, 0),
        }
    }

    /// Whether [`Game::update`] may be called: the next move does not eat
    /// the food on a board that has no other free cell.
    pub fn can_update(&self) -> (b: bool)
        requires
            self@.wf(),
        ensures
            b == self@.can_update(),
    {
        proof {
            assert(self@.in_bounds(self@.snake[0]));
        }
        let target = self.clamped_target();
        if target.0 >= self.width || target.1 >= self.height || occupies(&self.snake, target) {
            return true;
        }
        if target.0 != self.food.0 || target.1 != self.food.1 {
            return true;
        }
        self.snake.len() < self.width * self.height - 1
    }

    /// Whether the position is well formed: the grid is playable, the snake
    /// is not empty, lies on the grid and does not cross itself, and the food
    /// lies on a free cell.
    pub fn is_well_formed(&self) -> (b: bool)
        ensures
            b == self@.wf(),
    {
        match self.width.checked_mul(self.height) {
            Some(cells) if cells >= 2 => {},
            _ => {
                return false;
            },
        }
        if self.snake.len() == 0 || self.food.0 >= self.width || self.food.1 >= self.height
            || occupies(&self.snake, self.food) {
            return false;
        }
        let mut i: usize = 0;
        while i < self.snake.len()
            invariant
                i <= self.snake@.len(),
                forall|j: int| 0 <= j < i ==> self@.in_bounds(#[trigger] self.snake@[j]),
                forall|a: int, b: int| 0 <= a < b < i ==> self.snake@[a] != self.snake@[b],
            decreases self.snake@.len() - i,
        {
            let cell = self.snake[i];
            if cell.0 >= self.width || cell.1 >= self.height {
                return false;
            }
            let mut j: usize = 0;
            while j < i
                invariant
                    j <= i,
                    i < self.snake@.len(),
                    cell == self.snake@[i as int],
                    forall|a: int| 0 <= a < j ==> self.snake@[a] != cell,
                decreases i - j,
            {
                let other = self.snake[j];
                if other.0 == cell.0 && other.1 == cell.1 {
                    return false;
                }
                j += 1;
            }
            i += 1;
        }
        true
    }
}

} // verus!
