use snake_rl::free_cells::{nth_free_cell, occupies};
use std::collections::VecDeque;

fn snake(cells: &[(usize, usize)]) -> VecDeque<(usize, usize)> {
    cells.iter().copied().collect()
}

#[test]
fn occupies_finds_the_cells_of_the_snake() {
    let s = snake(&[(0, 0), (1, 0), (1, 1)]);
    assert!(occupies(&s, (0, 0)));
    assert!(occupies(&s, (1, 1)));
    assert!(!occupies(&s, (0, 1)));
    assert!(!occupies(&s, (1, 2)));
    assert!(!occupies(&snake(&[]), (0, 0)));
}

#[test]
fn free_cells_are_numbered_row_by_row() {
    let s = snake(&[(0, 0), (1, 0)]);
    assert_eq!(nth_free_cell(&s, 3, 2, 0), Some((2, 0)));
    assert_eq!(nth_free_cell(&s, 3, 2, 1), Some((0, 1)));
    assert_eq!(nth_free_cell(&s, 3, 2, 2), Some((1, 1)));
    assert_eq!(nth_free_cell(&s, 3, 2, 3), Some((2, 1)));
}

#[test]
fn free_cells_run_out_after_the_last_one() {
    let s = snake(&[(0, 0), (1, 0)]);
    assert_eq!(nth_free_cell(&s, 3, 2, 4), None);
    assert_eq!(nth_free_cell(&s, 3, 2, usize::MAX), None);
}

#[test]
fn free_cells_skip_a_snake_in_the_middle() {
    let s = snake(&[(1, 1), (1, 0), (2, 1)]);
    assert_eq!(nth_free_cell(&s, 3, 3, 0), Some((0, 0)));
    assert_eq!(nth_free_cell(&s, 3, 3, 1), Some((2, 0)));
    assert_eq!(nth_free_cell(&s, 3, 3, 2), Some((0, 1)));
    assert_eq!(nth_free_cell(&s, 3, 3, 3), Some((0, 2)));
    assert_eq!(nth_free_cell(&s, 3, 3, 5), Some((2, 2)));
    assert_eq!(nth_free_cell(&s, 3, 3, 6), None);
}

#[test]
fn an_empty_grid_numbers_all_its_cells() {
    let s = snake(&[]);
    for k in 0..12 {
        assert_eq!(nth_free_cell(&s, 4, 3, k), Some((k % 4, k / 4)));
    }
    assert_eq!(nth_free_cell(&s, 4, 3, 12), None);
}

#[test]
fn a_full_grid_and_a_grid_without_cells_have_no_free_cell() {
    let s = snake(&[(0, 0), (1, 0), (1, 1), (0, 1)]);
    assert_eq!(nth_free_cell(&s, 2, 2, 0), None);
    assert_eq!(nth_free_cell(&snake(&[]), 0, 7, 0), None);
    assert_eq!(nth_free_cell(&snake(&[]), 7, 0, 0), None);
}
