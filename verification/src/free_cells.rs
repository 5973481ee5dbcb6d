//! Counting the cells that the snake leaves free, and finding the one that a
//! draw selects. Free cells are numbered row by row, each row from the left.

use vstd::prelude::*;
use std::collections::VecDeque;
use crate::board::Cell;

verus! {

/// How many of the first `x` cells of row `y` are free.
pub open spec fn free_in_row(snake: Seq<Cell>, y: usize, x: usize) -> nat
    decreases x,
{
    if x == 0 {
        0
    } else {
        let before = free_in_row(snake, y, (x - 1) as usize);
        if snake.contains(((x - 1) as usize, y)) {
            before
        } else {
            before + 1
        }
    }
}

/// How many cells of the first `y` rows are free, on a grid `width` wide.
pub open spec fn free_rows(snake: Seq<Cell>, width: usize, y: usize) -> nat
    decreases y,
{
    if y == 0 {
        0
    } else {
        free_rows(snake, width, (y - 1) as usize) + free_in_row(snake, (y - 1) as usize, width)
    }
}

/// How many free cells come before `c` in the numbering.
pub open spec fn free_rank(snake: Seq<Cell>, width: usize, c: Cell) -> nat {
    free_rows(snake, width, c.1) + free_in_row(snake, c.1, c.0)
}

/// How many cells of the whole grid are free.
pub open spec fn free_total(snake: Seq<Cell>, width: usize, height: usize) -> nat {
    free_rows(snake, width, height)
}

/// The count along a row never falls, and it grows past a free cell.
pub proof fn lemma_free_in_row_grows(snake: Seq<Cell>, y: usize, a: usize, b: usize)
    requires
        a <= b,
    ensures
        free_in_row(snake, y, a) <= free_in_row(snake, y, b),
        a < b && !snake.contains((a, y)) ==> free_in_row(snake, y, a) < free_in_row(snake, y, b),
    decreases b,
{
    if a < b {
        lemma_free_in_row_grows(snake, y, a, (b - 1) as usize);
    }
}

/// The count over rows never falls.
pub proof fn lemma_free_rows_grow(snake: Seq<Cell>, width: usize, a: usize, b: usize)
    requires
        a <= b,
    ensures
        free_rows(snake, width, a) <= free_rows(snake, width, b),
    decreases b,
{
    if a < b {
        lemma_free_rows_grow(snake, width, a, (b - 1) as usize);
    }
}

/// A free cell of the grid has a number below the count of all free cells.
pub proof fn lemma_rank_below_total(snake: Seq<Cell>, width: usize, height: usize, c: Cell)
    requires
        c.0 < width,
        c.1 < height,
        !snake.contains(c),
    ensures
        free_rank(snake, width, c) < free_total(snake, width, height),
{
    lemma_free_in_row_grows(snake, c.1, c.0, width);
    lemma_free_rows_grow(snake, width, (c.1 + 1) as usize, height);
    assert(free_rows(snake, width, (c.1 + 1) as usize) == free_rows(snake, width, c.1)
        + free_in_row(snake, c.1, width));
}

/// Two free cells with the same number are the same cell.
pub proof fn lemma_rank_is_unique(snake: Seq<Cell>, width: usize, c: Cell, d: Cell)
    requires
        c.0 < width,
        d.0 < width,
        !snake.contains(c),
        !snake.contains(d),
        free_rank(snake, width, c) == free_rank(snake, width, d),
    ensures
        c == d,
{
    if c.1 < d.1 {
        lemma_free_in_row_grows(snake, c.1, c.0, width);
        lemma_free_rows_grow(snake, width, (c.1 + 1) as usize, d.1);
        assert(free_rows(snake, width, (c.1 + 1) as usize) == free_rows(snake, width, c.1)
            + free_in_row(snake, c.1, width));
    } else if d.1 < c.1 {
        lemma_free_in_row_grows(snake, d.1, d.0, width);
        lemma_free_rows_grow(snake, width, (d.1 + 1) as usize, c.1);
        assert(free_rows(snake, width, (d.1 + 1) as usize) == free_rows(snake, width, d.1)
            + free_in_row(snake, d.1, width));
    } else if c.0 < d.0 {
        lemma_free_in_row_grows(snake, c.1, c.0, d.0);
    } else if d.0 < c.0 {
        lemma_free_in_row_grows(snake, c.1, d.0, c.0);
    }
}

proof fn lemma_row_without_snake(y: usize, x: usize)
    ensures
        free_in_row(Seq::<Cell>::empty(), y, x) == x,
    decreases x,
{
    if x > 0 {
        lemma_row_without_snake(y, (x - 1) as usize);
    }
}

proof fn lemma_rows_without_snake(width: usize, y: usize)
    ensures
        free_rows(Seq::<Cell>::empty(), width, y) == width * y,
    decreases y,
{
    if y > 0 {
        lemma_rows_without_snake(width, (y - 1) as usize);
        lemma_row_without_snake((y - 1) as usize, width);
        assert(width * (y - 1) + width == width * y) by (nonlinear_arith);
    }
}

proof fn lemma_row_with_one_more(snake: Seq<Cell>, e: Cell, y: usize, x: usize)
    requires
        !snake.contains(e),
    ensures
        free_in_row(snake, y, x) == free_in_row(snake.push(e), y, x) + if e.1 == y && e.0 < x {
            1nat
        } else {
            0nat
        },
    decreases x,
{
    if x > 0 {
        let c = ((x - 1) as usize, y);
        lemma_row_with_one_more(snake, e, y, (x - 1) as usize);
        lemma_push_contains(snake, e, c);
    }
}

proof fn lemma_push_contains(snake: Seq<Cell>, e: Cell, c: Cell)
    ensures
        snake.push(e).contains(c) <==> (snake.contains(c) || c == e),
{
    let grown = snake.push(e);
    if snake.contains(c) {
        let i = choose|i: int| 0 <= i < snake.len() && snake[i] == c;
        assert(grown[i] == c);
    }
    if c == e {
        assert(grown[snake.len() as int] == c);
    }
    if grown.contains(c) {
        let i = choose|i: int| 0 <= i < grown.len() && grown[i] == c;
        if i < snake.len() {
            assert(snake[i] == c);
        }
    }
}

proof fn lemma_rows_with_one_more(snake: Seq<Cell>, e: Cell, width: usize, y: usize)
    requires
        !snake.contains(e),
        e.0 < width,
    ensures
        free_rows(snake, width, y) == free_rows(snake.push(e), width, y) + if e.1 < y {
            1nat
        } else {
            0nat
        },
    decreases y,
{
    if y > 0 {
        lemma_rows_with_one_more(snake, e, width, (y - 1) as usize);
        lemma_row_with_one_more(snake, e, (y - 1) as usize, width);
    }
}

/// A snake that lies on the grid without crossing itself leaves free as many
/// cells as the grid has beyond the snake's length.
pub proof fn lemma_free_total(snake: Seq<Cell>, width: usize, height: usize)
    requires
        snake.no_duplicates(),
        forall|i: int| 0 <= i < snake.len() ==> (#[trigger] snake[i]).0 < width && snake[i].1 < height,
    ensures
        free_total(snake, width, height) + snake.len() == width * height,
    decreases snake.len(),
{
    if snake.len() == 0 {
        assert(snake =~= Seq::<Cell>::empty());
        lemma_rows_without_snake(width, height);
    } else {
        let rest = snake.drop_last();
        let e = snake.last();
        assert(snake =~= rest.push(e));
        assert forall|i: int| 0 <= i < rest.len() implies (#[trigger] rest[i]).0 < width && rest[i].1 < height by {
            assert(rest[i] == snake[i]);
        }
        assert(!rest.contains(e)) by {
            if rest.contains(e) {
                let i = choose|i: int| 0 <= i < rest.len() && rest[i] == e;
                assert(snake[i] == snake[snake.len() - 1]);
            }
        }
        lemma_free_total(rest, width, height);
        lemma_rows_with_one_more(rest, e, width, height);
    }
}

/// Whether the snake lies on the cell `c`.
pub fn occupies(snake: &VecDeque<Cell>, c: Cell) -> (found: bool)
    ensures
        found == snake@.contains(c),
{
    let mut i: usize = 0;
    while i < snake.len()
        invariant
            i <= snake@.len(),
            forall|j: int| 0 <= j < i ==> snake@[j] != c,
        decreases snake@.len() - i,
    {
        let e = snake[i];
        if e.0 == c.0 && e.1 == c.1 {
            return true;
        }
        i += 1;
    }
    false
}

/// The free cell with number `k`, counting from zero, or `None` when the
/// grid has no more than `k` free cells.
pub fn nth_free_cell(snake: &VecDeque<Cell>, width: usize, height: usize, k: usize) -> (r: Option<Cell>)
    ensures
        r is Some <==> k < free_total(snake@, width, height),
        r matches Some(c) ==> {
            &&& c.0 < width
            &&& c.1 < height
            &&& !snake@.contains(c)
            &&& free_rank(snake@, width, c) == k
        },
{
    let mut count: usize = 0;
    let mut y: usize = 0;
    while y < height
        invariant
            y <= height,
            count == free_rows(snake@, width, y),
            count <= k,
        decreases height - y,
    {
        let mut x: usize = 0;
        while x < width
            invariant
                x <= width,
                y < height,
                count == free_rows(snake@, width, y) + free_in_row(snake@, y, x),
                count <= k,
            decreases width - x,
        {
            if !occupies(snake, (x, y)) {
                if count == k {
                    proof {
                        lemma_rank_below_total(snake@, width, height, (x, y));
                    }
                    return Some((x, y));
                }
                count += 1;
            }
            x += 1;
        }
        y += 1;
    }
    None
}

} // verus!
