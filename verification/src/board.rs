//! The mathematical model of the game: a board, the snake on it, and the
//! rules by which one tick changes them.

use vstd::prelude::*;

verus! {

/// A cell of the grid, as column and row.
pub type Cell = (usize, usize);

/// The four headings of the snake.
#[derive(Clone, Copy, PartialEq, Eq, Structural, Debug)]
pub enum Direction {
    Up,
    Down,
    Left,
    Right,
}

impl Direction {
    /// The heading that points the other way.
    pub open spec fn reverse(self) -> Direction {
        match self {
            Direction::Up => Direction::Down,
            Direction::Down => Direction::Up,
            Direction::Left => Direction::Right,
            Direction::Right => Direction::Left,
        }
    }

    /// The column step of one move along this heading.
    pub open spec fn dx(self) -> int {
        match self {
            Direction::Left => -1,
            Direction::Right => 1,
            _ => 0,
        }
    }

    /// The row step of one move along this heading; rows grow downwards.
    pub open spec fn dy(self) -> int {
        match self {
            Direction::Up => -1,
            Direction::Down => 1,
            _ => 0,
        }
    }

    /// The heading after a request to turn to `wanted`: the request is
    /// dropped when it would turn the snake back onto itself.
    pub open spec fn turned(self, wanted: Direction) -> Direction {
        if wanted == self.reverse() {
            self
        } else {
            wanted
        }
    }

    /// Computes [`Direction::reverse`].
    pub fn opposite(self) -> (r: Direction)
        ensures
            r == self.reverse(),
    {
        match self {
            Direction::Up => Direction::Down,
            Direction::Down => Direction::Up,
            Direction::Left => Direction::Right,
            Direction::Right => Direction::Left,
        }
    }
}

/// The state of a game as plain mathematics: the snake is a sequence of
/// cells with its head first.
pub struct Board {
    pub width: usize,
    pub height: usize,
    pub snake: Seq<Cell>,
    pub direction: Direction,
    pub food: Cell,
}

/// A grid on which a game can start: it has room for the snake and the food,
/// and its cells can be counted in a `usize`.
pub open spec fn playable(width: usize, height: usize) -> bool {
    2 <= width * height <= usize::MAX
}

impl Board {
    /// Whether the cell lies on the grid.
    pub open spec fn in_bounds(self, c: Cell) -> bool {
        c.0 < self.width && c.1 < self.height
    }

    /// What every reachable state satisfies: the snake is not empty, lies on
    /// the grid and never crosses itself, and the food lies on a free cell.
    pub open spec fn wf(self) -> bool {
        &&& playable(self.width, self.height)
        &&& self.snake.len() > 0
        &&& forall|i: int| 0 <= i < self.snake.len() ==> self.in_bounds(#[trigger] self.snake[i])
        &&& self.snake.no_duplicates()
        &&& self.in_bounds(self.food)
        &&& !self.snake.contains(self.food)
    }

    /// The cell under the snake's head.
    pub open spec fn head(self) -> Cell {
        self.snake[0]
    }

    /// Where the head would go next, as unbounded coordinates.
    pub open spec fn target(self) -> (int, int) {
        (self.head().0 + self.direction.dx(), self.head().1 + self.direction.dy())
    }

    /// The target seen as a cell; meaningful when it lies on the grid.
    pub open spec fn target_cell(self) -> Cell {
        (self.target().0 as usize, self.target().1 as usize)
    }

    /// Whether the next move keeps the head on the grid.
    pub open spec fn target_on_grid(self) -> bool {
        0 <= self.target().0 < self.width && 0 <= self.target().1 < self.height
    }

    /// The next move ends the episode: the head would leave the grid or run
    /// into the snake, its last cell included.
    pub open spec fn blocked(self) -> bool {
        !self.target_on_grid() || self.snake.contains(self.target_cell())
    }

    /// The next move lands on the food.
    pub open spec fn eats(self) -> bool {
        self.target_on_grid() && self.target_cell() == self.food
    }

    /// The snake can still grow by one cell and leave a free cell for the
    /// next food.
    pub open spec fn has_room(self) -> bool {
        self.snake.len() + 1 < self.width * self.height
    }

    /// A tick can be played: it does not eat the food on a board that would
    /// then have no free cell left for the next one.
    pub open spec fn can_update(self) -> bool {
        self.blocked() || !self.eats() || self.has_room()
    }

    /// The board after a request to turn to `wanted`.
    pub open spec fn turn(self, wanted: Direction) -> Board {
        Board { direction: self.direction.turned(wanted), ..self }
    }

    /// The board after a move that is not blocked. The snake gains the
    /// target as its new head. If it ate, it keeps its tail and the food
    /// moves to `new_food`; if not, it drops its tail and the food stays.
    pub open spec fn advance(self, new_food: Cell) -> Board {
        if self.eats() {
            Board { snake: seq![self.target_cell()] + self.snake, food: new_food, ..self }
        } else {
            Board { snake: seq![self.target_cell()] + self.snake.drop_last(), ..self }
        }
    }

    /// The board at the start of an episode: a snake of one cell at the
    /// centre, heading right, and the food on any other cell.
    pub open spec fn is_initial(self) -> bool {
        &&& playable(self.width, self.height)
        &&& self.snake == seq![(self.width / 2, self.height / 2)]
        &&& self.direction == Direction::Right
        &&& self.in_bounds(self.food)
        &&& self.food != (self.width / 2, self.height / 2)
    }
}

/// Asking twice for the same turn is the same as asking once.
pub proof fn lemma_turn_idempotent(b: Board, wanted: Direction)
    ensures
        b.turn(wanted).turn(wanted) == b.turn(wanted),
{
}

/// A turn is refused exactly when it asks for the reverse of the current
/// heading; every other request becomes the heading. Nothing else changes.
pub proof fn lemma_turn_rejects_only_reverse(b: Board, wanted: Direction)
    ensures
        wanted == b.direction.reverse() ==> b.turn(wanted) == b,
        wanted != b.direction.reverse() ==> b.turn(wanted).direction == wanted,
        b.turn(wanted).wf() == b.wf(),
        b.turn(wanted).snake == b.snake,
        b.turn(wanted).food == b.food,
{
}

/// A board at the start of an episode is well formed.
pub proof fn lemma_initial_wf(b: Board)
    requires
        b.is_initial(),
    ensures
        b.wf(),
        b.head() == (b.width / 2, b.height / 2),
{
    assert(b.width > 0 && b.height > 0) by (nonlinear_arith)
        requires
            2 <= b.width * b.height,
    ;
    assert(b.snake[0] == (b.width / 2, b.height / 2));
}

/// One move keeps the snake on the grid and free of crossings, and the food
/// off the snake: from a well-formed board every unblocked move leads to a
/// well-formed board whose head is the target, provided the new food, where
/// one is placed, lies on a free cell of the grown snake.
pub proof fn lemma_advance_wf(b: Board, new_food: Cell)
    requires
        b.wf(),
        !b.blocked(),
        b.eats() ==> b.in_bounds(new_food) && new_food != b.target_cell() && !b.snake.contains(
            new_food,
        ),
    ensures
        b.advance(new_food).wf(),
        b.advance(new_food).snake.no_duplicates(),
        b.advance(new_food).in_bounds(b.advance(new_food).head()),
        b.advance(new_food).head() == b.target_cell(),
{
    let t = b.target_cell();
    let a = b.advance(new_food);
    let body = if b.eats() { b.snake } else { b.snake.drop_last() };
    assert(a.snake == seq![t] + body);
    assert(a.snake[0] == t);
    assert forall|i: int| 0 <= i < body.len() implies body[i] == b.snake[i] by {}
    assert forall|i: int| 0 < i < a.snake.len() implies a.snake[i] == b.snake[i - 1] by {
        assert(a.snake[i] == body[i - 1]);
    }
    assert forall|i: int| 0 <= i < a.snake.len() implies a.in_bounds(#[trigger] a.snake[i]) by {
        if i > 0 {
            assert(a.snake[i] == b.snake[i - 1]);
        }
    }
    assert forall|i: int, j: int| 0 <= i < a.snake.len() && 0 <= j < a.snake.len() && i != j implies a.snake[i] != a.snake[j] by {
        if i == 0 {
            assert(b.snake.contains(b.snake[j - 1]));
        } else if j == 0 {
            assert(b.snake.contains(b.snake[i - 1]));
        } else {
            assert(a.snake[i] == b.snake[i - 1]);
            assert(a.snake[j] == b.snake[j - 1]);
        }
    }
    assert(!a.snake.contains(a.food)) by {
        if a.snake.contains(a.food) {
            let i = choose|i: int| 0 <= i < a.snake.len() && a.snake[i] == a.food;
            if i > 0 {
                assert(b.snake.contains(b.snake[i - 1]));
            }
        }
    }
}

} // verus!
