use snake_rl::board::Direction;
use snake_rl::game::Game;
use snake_rl::render::{draw_cell, draw_game, frame_size, BACKGROUND, CELL_SIZE, FOOD_COLOR, SNAKE_COLOR};
use std::collections::VecDeque;

#[test]
fn frame_size_is_four_hundred_pixels_per_cell() {
    assert_eq!(CELL_SIZE, 20);
    assert_eq!(frame_size(20, 20), Some(160_000));
    assert_eq!(frame_size(3, 2), Some(2400));
    assert_eq!(frame_size(0, 5), Some(0));
}

#[test]
fn frame_size_refuses_a_frame_too_large_to_index() {
    assert_eq!(frame_size(usize::MAX, 1), None);
    assert_eq!(frame_size(1, usize::MAX), None);
    assert_eq!(frame_size(usize::MAX / 20, usize::MAX / 20), None);
    assert_eq!(frame_size(usize::MAX, 0), None);
}

#[test]
fn draw_cell_paints_one_square() {
    let mut buffer = vec![7u32; 2400];
    draw_cell(&mut buffer, 3, 2, 1, 1, 0xABCDEF);
    for py in 0..40 {
        for px in 0..60 {
            let inside = (20..40).contains(&px) && (20..40).contains(&py);
            assert_eq!(buffer[py * 60 + px], if inside { 0xABCDEF } else { 7 });
        }
    }
}

#[test]
fn draw_cell_outside_the_grid_paints_nothing() {
    let mut buffer = vec![7u32; 2400];
    draw_cell(&mut buffer, 3, 2, 3, 0, 1);
    draw_cell(&mut buffer, 3, 2, 0, 2, 1);
    draw_cell(&mut buffer, 3, 2, usize::MAX, usize::MAX, 1);
    assert!(buffer.iter().all(|&p| p == 7));
}

#[test]
fn draw_game_paints_ground_snake_and_food() {
    let snake: VecDeque<(usize, usize)> = [(1, 0), (0, 0)].into_iter().collect();
    let game = Game { width: 3, height: 2, snake, direction: Direction::Right, food: (2, 1) };
    let mut buffer = vec![0x123456u32; frame_size(3, 2).unwrap()];
    draw_game(&mut buffer, &game);
    assert_eq!(SNAKE_COLOR, 0x00FF00);
    assert_eq!(FOOD_COLOR, 0xFF0000);
    assert_eq!(BACKGROUND, 0);
    for py in 0..40 {
        for px in 0..60 {
            let cell = (px / 20, py / 20);
            let expected = if cell == (2, 1) {
                0xFF0000
            } else if cell == (1, 0) || cell == (0, 0) {
                0x00FF00
            } else {
                0
            };
            assert_eq!(buffer[py * 60 + px], expected);
        }
    }
}

#[test]
fn draw_game_paints_the_food_over_the_snake() {
    let snake: VecDeque<(usize, usize)> = [(0, 0)].into_iter().collect();
    let game = Game { width: 1, height: 1, snake, direction: Direction::Right, food: (0, 0) };
    let mut buffer = vec![0u32; 400];
    draw_game(&mut buffer, &game);
    assert!(buffer.iter().all(|&p| p == 0xFF0000));
}
