//! Painting the board into a frame of pixels, one square of pixels per cell.
//! The frame is a plain vector, row after row; showing it is the caller's
//! business.

use vstd::prelude::*;
use crate::board::{Board, Cell};
use crate::game::Game;

verus! {

/// The side of the square that a cell takes up in the frame, in pixels.
pub const CELL_SIZE: usize = 20;

/// The colour of an empty cell.
pub const BACKGROUND: u32 = 0;

/// The colour of the snake.
pub const SNAKE_COLOR: u32 = 0x00FF00;

/// The colour of the food.
pub const FOOD_COLOR: u32 = 0xFF0000;

/// The number of pixels in the frame of a grid of `cols` by `rows` cells.
pub open spec fn frame_len(cols: usize, rows: usize) -> int {
    (cols * CELL_SIZE) * (rows * CELL_SIZE)
}

/// The frame's sides and its length can be held in a `usize`.
pub open spec fn frame_fits(cols: usize, rows: usize) -> bool {
    &&& cols * CELL_SIZE <= usize::MAX
    &&& rows * CELL_SIZE <= usize::MAX
    &&& frame_len(cols, rows) <= usize::MAX
}

/// The pixel in column `px` of row `py`.
pub open spec fn pixel(frame: Seq<u32>, cols: usize, px: int, py: int) -> u32 {
    frame[py * (cols * CELL_SIZE) + px]
}

/// Whether the frame has a pixel at these coordinates.
pub open spec fn on_frame(cols: usize, rows: usize, px: int, py: int) -> bool {
    0 <= px < cols * CELL_SIZE && 0 <= py < rows * CELL_SIZE
}

/// Whether the pixel belongs to the square of the cell `(x, y)`.
pub open spec fn in_cell(px: int, py: int, x: usize, y: usize) -> bool {
    px / (CELL_SIZE as int) == x && py / (CELL_SIZE as int) == y
}

/// The cell whose square holds the pixel.
pub open spec fn cell_of(px: int, py: int) -> Cell {
    ((px / (CELL_SIZE as int)) as usize, (py / (CELL_SIZE as int)) as usize)
}

/// The colour that the board gives to a pixel: that of the food, of the
/// snake, or of the empty ground.
pub open spec fn color_at(b: Board, px: int, py: int) -> u32 {
    if cell_of(px, py) == b.food {
        FOOD_COLOR
    } else if b.snake.contains(cell_of(px, py)) {
        SNAKE_COLOR
    } else {
        BACKGROUND
    }
}

proof fn lemma_pixel_index(cols: usize, rows: usize, px: int, py: int)
    requires
        on_frame(cols, rows, px, py),
    ensures
        0 <= py * (cols * CELL_SIZE) + px < frame_len(cols, rows),
{
    let w = cols * CELL_SIZE;
    let h = rows * CELL_SIZE;
    assert(0 <= py * w + px < w * h) by (nonlinear_arith)
        requires
            0 <= px < w,
            0 <= py < h,
    ;
}

proof fn lemma_pixel_apart(w: int, px: int, py: int, qx: int, qy: int)
    requires
        0 <= px < w,
        0 <= qx < w,
        py * w + px == qy * w + qx,
    ensures
        px == qx,
        py == qy,
{
    assert(py == qy) by (nonlinear_arith)
        requires
            0 <= px < w,
            0 <= qx < w,
            py * w + px == qy * w + qx,
    {
        if py < qy {
            assert((qy - py) * w >= w);
        } else if qy < py {
            assert((py - qy) * w >= w);
        }
    }
}

/// The length of the frame for a grid of `cols` by `rows` cells, or `None`
/// when the frame is too large to index.
pub fn frame_size(cols: usize, rows: usize) -> (r: Option<usize>)
    ensures
        r is Some <==> frame_fits(cols, rows),
        r matches Some(n) ==> n == frame_len(cols, rows),
{
    let width = match cols.checked_mul(CELL_SIZE) {
        Some(w) => w,
        None => {
            return None;
        },
    };
    let height = match rows.checked_mul(CELL_SIZE) {
        Some(h) => h,
        None => {
            return None;
        },
    };
    width.checked_mul(height)
}

/// Paints the square of the cell `(x, y)` in one colour and leaves every
/// other pixel as it was. A cell outside the grid paints nothing.
pub fn draw_cell(buffer: &mut Vec<u32>, cols: usize, rows: usize, x: usize, y: usize, color: u32)
    requires
        frame_fits(cols, rows),
        old(buffer)@.len() == frame_len(cols, rows),
    ensures
        final(buffer)@.len() == old(buffer)@.len(),
        forall|px: int, py: int|
            on_frame(cols, rows, px, py) ==> #[trigger] pixel(final(buffer)@, cols, px, py) == if in_cell(
                px,
                py,
                x,
                y,
            ) {
                color
            } else {
                pixel(old(buffer)@, cols, px, py)
            },
{
    if x >= cols || y >= rows {
        return;
    }
    let width = cols * CELL_SIZE;
    let left = x * CELL_SIZE;
    let top = y * CELL_SIZE;
    let mut dy: usize = 0;
    while dy < CELL_SIZE
        invariant
            dy <= CELL_SIZE,
            x < cols,
            y < rows,
            frame_fits(cols, rows),
            width == cols * CELL_SIZE,
            left == x * CELL_SIZE,
            top == y * CELL_SIZE,
            buffer@.len() == frame_len(cols, rows),
            forall|px: int, py: int|
                on_frame(cols, rows, px, py) ==> #[trigger] pixel(buffer@, cols, px, py) == if in_cell(
                    px,
                    py,
                    x,
                    y,
                ) && py < top + dy {
                    color
                } else {
                    pixel(old(buffer)@, cols, px, py)
                },
        decreases CELL_SIZE - dy,
    {
        let mut dx: usize = 0;
        while dx < CELL_SIZE
            invariant
                dx <= CELL_SIZE,
                dy < CELL_SIZE,
                x < cols,
                y < rows,
                frame_fits(cols, rows),
                width == cols * CELL_SIZE,
                left == x * CELL_SIZE,
                top == y * CELL_SIZE,
                buffer@.len() == frame_len(cols, rows),
                forall|px: int, py: int|
                    on_frame(cols, rows, px, py) ==> #[trigger] pixel(buffer@, cols, px, py) == if in_cell(
                        px,
                        py,
                        x,
                        y,
                    ) && (py < top + dy || (py == top + dy && px < left + dx)) {
                        color
                    } else {
                        pixel(old(buffer)@, cols, px, py)
                    },
            decreases CELL_SIZE - dx,
        {
            let px0 = left + dx;
            let py0 = top + dy;
            proof {
                lemma_pixel_index(cols, rows, px0 as int, py0 as int);
            }
            let ghost before = buffer@;
            buffer[py0 * width + px0] = color;
            proof {
                assert forall|px: int, py: int| on_frame(cols, rows, px, py) implies #[trigger] pixel(
                    buffer@,
                    cols,
                    px,
                    py,
                ) == if in_cell(px, py, x, y) && (py < top + dy || (py == top + dy && px < left
                    + dx + 1)) {
                    color
                } else {
                    pixel(old(buffer)@, cols, px, py)
                } by {
                    lemma_pixel_index(cols, rows, px, py);
                    if py * width + px == py0 * width + px0 {
                        lemma_pixel_apart(width as int, px, py, px0 as int, py0 as int);
                    } else {
                        assert(pixel(buffer@, cols, px, py) == pixel(before, cols, px, py));
                        if px == px0 && py == py0 {
                            assert(false);
                        }
                    }
                }
            }
            dx += 1;
        }
        dy += 1;
    }
}

/// Paints the whole board: the ground, then the snake, then the food.
pub fn draw_game(buffer: &mut Vec<u32>, game: &Game)
    requires
        frame_fits(game.width, game.height),
        old(buffer)@.len() == frame_len(game.width, game.height),
    ensures
        final(buffer)@.len() == old(buffer)@.len(),
        forall|px: int, py: int|
            on_frame(game.width, game.height, px, py) ==> #[trigger] pixel(
                final(buffer)@,
                game.width,
                px,
                py,
            ) == color_at(game@, px, py),
{
    let cols = game.width;
    let rows = game.height;
    let mut i: usize = 0;
    while i < buffer.len()
        invariant
            i <= buffer@.len(),
            buffer@.len() == frame_len(cols, rows),
            forall|j: int| 0 <= j < i ==> buffer@[j] == BACKGROUND,
        decreases buffer@.len() - i,
    {
        buffer[i] = BACKGROUND;
        i += 1;
    }
    proof {
        assert forall|px: int, py: int| on_frame(cols, rows, px, py) implies #[trigger] pixel(
            buffer@,
            cols,
            px,
            py,
        ) == BACKGROUND by {
            lemma_pixel_index(cols, rows, px, py);
        }
    }
    let mut k: usize = 0;
    while k < game.snake.len()
        invariant
            k <= game.snake@.len(),
            cols == game.width,
            rows == game.height,
            frame_fits(cols, rows),
            buffer@.len() == frame_len(cols, rows),
            forall|px: int, py: int|
                on_frame(cols, rows, px, py) ==> #[trigger] pixel(buffer@, cols, px, py) == if game.snake@.take(
                    k as int,
                ).contains(cell_of(px, py)) {
                    SNAKE_COLOR
                } else {
                    BACKGROUND
                },
        decreases game.snake@.len() - k,
    {
        let cell = game.snake[k];
        let ghost before = buffer@;
        draw_cell(buffer, cols, rows, cell.0, cell.1, SNAKE_COLOR);
        proof {
            let done = game.snake@.take(k as int);
            let more = game.snake@.take(k + 1);
            assert(more =~= done.push(cell));
            assert forall|px: int, py: int| on_frame(cols, rows, px, py) implies #[trigger] pixel(
                buffer@,
                cols,
                px,
                py,
            ) == if more.contains(cell_of(px, py)) {
                SNAKE_COLOR
            } else {
                BACKGROUND
            } by {
                let c = cell_of(px, py);
                assert(in_cell(px, py, cell.0, cell.1) <==> c == cell);
                if done.contains(c) {
                    let j = choose|j: int| 0 <= j < done.len() && done[j] == c;
                    assert(more[j] == c);
                }
                if c == cell {
                    assert(more[k as int] == c);
                }
                if more.contains(c) && c != cell {
                    let j = choose|j: int| 0 <= j < more.len() && more[j] == c;
                    assert(done[j] == c);
                }
            }
        }
        k += 1;
    }
    proof {
        assert(game.snake@.take(k as int) =~= game.snake@);
    }
    draw_cell(buffer, cols, rows, game.food.0, game.food.1, FOOD_COLOR);
    proof {
        assert forall|px: int, py: int| on_frame(cols, rows, px, py) implies #[trigger] pixel(
            buffer@,
            cols,
            px,
            py,
        ) == color_at(game@, px, py) by {
            assert(in_cell(px, py, game.food.0, game.food.1) <==> cell_of(px, py) == game.food);
        }
    }
}

} // verus!
