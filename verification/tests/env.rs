use snake_rl::agent::{RandomAgent, ACTION_COUNT};
use snake_rl::board::Direction;
use snake_rl::env::{heading_for, Env, Observation, REWARD_COLLISION, REWARD_FOOD, REWARD_MOVE};
use snake_rl::game::Game;
use std::collections::VecDeque;

fn env(width: usize, height: usize, snake: &[(usize, usize)], direction: Direction, food: (usize, usize)) -> Env {
    Env { game: Game { width, height, snake: snake.iter().copied().collect::<VecDeque<_>>(), direction, food } }
}

#[test]
fn new_env_starts_a_fresh_game() {
    let e = Env::new(20, 20).unwrap();
    let obs = e.get_state();
    assert_eq!((obs.head_x, obs.head_y), (10, 10));
    assert_eq!((obs.heading_x, obs.heading_y), (1, 0));
    assert_eq!((obs.width, obs.height), (20, 20));
    assert_eq!((obs.food_x, obs.food_y), e.game.food);
    assert!(Env::new(1, 1).is_none());
}

#[test]
fn get_state_reads_the_board() {
    let e = env(8, 6, &[(3, 4), (3, 5)], Direction::Up, (7, 1));
    let expected = Observation {
        head_x: 3,
        head_y: 4,
        food_x: 7,
        food_y: 1,
        heading_x: 0,
        heading_y: -1,
        width: 8,
        height: 6,
    };
    assert_eq!(e.get_state(), expected);
    assert_eq!(e.get_state(), expected);
    assert_eq!(e.game.snake.len(), 2);
}

#[test]
fn step_onto_the_food_is_rewarded_with_one() {
    for _ in 0..50 {
        let mut e = env(5, 5, &[(2, 2)], Direction::Right, (3, 2));
        assert!(e.can_step(3));
        let (obs, reward, done) = e.step(3);
        assert_eq!(reward, 1);
        assert_eq!(reward, REWARD_FOOD);
        assert!(!done);
        assert_eq!((obs.head_x, obs.head_y), (3, 2));
        assert_eq!(e.game.snake.len(), 2);
        assert_ne!((obs.food_x, obs.food_y), (3, 2));
        assert_ne!((obs.food_x, obs.food_y), (2, 2));
    }
}

#[test]
fn step_into_a_wall_is_punished_and_ends_the_episode() {
    let mut e = env(5, 5, &[(4, 2)], Direction::Right, (0, 0));
    let before = e.get_state();
    let (obs, reward, done) = e.step(3);
    assert_eq!(reward, -1);
    assert_eq!(reward, REWARD_COLLISION);
    assert!(done);
    assert_eq!(obs, before);
}

#[test]
fn step_onto_a_free_cell_earns_nothing() {
    let mut e = env(5, 5, &[(2, 2)], Direction::Right, (0, 0));
    let (obs, reward, done) = e.step(1);
    assert_eq!(reward, 0);
    assert_eq!(reward, REWARD_MOVE);
    assert!(!done);
    assert_eq!((obs.head_x, obs.head_y), (2, 3));
    assert_eq!((obs.heading_x, obs.heading_y), (0, 1));
    assert_eq!((obs.food_x, obs.food_y), (0, 0));
}

#[test]
fn step_into_the_body_is_punished() {
    let mut e = env(5, 5, &[(2, 2), (2, 1), (1, 1), (1, 2), (1, 3)], Direction::Down, (4, 4));
    let (_, reward, done) = e.step(2);
    assert_eq!(reward, -1);
    assert!(done);
}

#[test]
fn step_maps_the_four_actions_to_the_four_headings() {
    let moves = [(0, Direction::Left, (2, 1)), (1, Direction::Left, (2, 3)), (2, Direction::Up, (1, 2)), (3, Direction::Up, (3, 2))];
    for (action, start, head) in moves {
        let mut e = env(5, 5, &[(2, 2)], start, (0, 0));
        let (obs, _, done) = e.step(action);
        assert!(!done);
        assert_eq!((obs.head_x, obs.head_y), head);
    }
}

#[test]
fn step_with_an_unknown_action_keeps_the_heading() {
    for action in [4, 5, 100, usize::MAX] {
        let mut e = env(5, 5, &[(2, 2)], Direction::Up, (0, 0));
        let (obs, reward, done) = e.step(action);
        assert_eq!((obs.head_x, obs.head_y), (2, 1));
        assert_eq!(e.game.direction, Direction::Up);
        assert_eq!(reward, 0);
        assert!(!done);
    }
}

#[test]
fn step_ignores_an_action_that_reverses_the_snake() {
    let mut e = env(5, 5, &[(2, 2), (1, 2)], Direction::Right, (0, 0));
    let (obs, reward, done) = e.step(2);
    assert_eq!((obs.head_x, obs.head_y), (3, 2));
    assert_eq!((obs.heading_x, obs.heading_y), (1, 0));
    assert_eq!(reward, 0);
    assert!(!done);
}

#[test]
fn heading_for_falls_back_to_the_current_heading() {
    assert_eq!(heading_for(0, Direction::Left), Direction::Up);
    assert_eq!(heading_for(1, Direction::Left), Direction::Down);
    assert_eq!(heading_for(2, Direction::Up), Direction::Left);
    assert_eq!(heading_for(3, Direction::Up), Direction::Right);
    assert_eq!(heading_for(4, Direction::Down), Direction::Down);
    assert_eq!(heading_for(usize::MAX, Direction::Left), Direction::Left);
}

#[test]
fn can_step_is_false_when_the_action_eats_the_last_free_cell() {
    let e = env(2, 2, &[(0, 0), (1, 0), (1, 1)], Direction::Left, (0, 1));
    assert!(!e.can_step(1));
    assert!(e.can_step(0));
    assert!(e.can_step(3));
    assert_eq!(e.game.direction, Direction::Left);
}

#[test]
fn reset_after_a_collision_shows_the_start_of_an_episode() {
    for _ in 0..100 {
        let mut e = env(9, 7, &[(8, 3), (7, 3), (6, 3)], Direction::Right, (0, 0));
        let (_, _, done) = e.step(3);
        assert!(done);
        let obs = e.reset();
        assert_eq!(obs, e.get_state());
        assert_eq!((obs.head_x, obs.head_y), (4, 3));
        assert_eq!((obs.heading_x, obs.heading_y), (1, 0));
        assert_eq!((obs.width, obs.height), (9, 7));
        assert!(obs.food_x < 9 && obs.food_y < 7);
        assert_ne!((obs.food_x, obs.food_y), (4, 3));
        assert_eq!(e.game.snake.len(), 1);
        assert_eq!(e.game.direction, Direction::Right);
    }
}

#[test]
fn an_episode_runs_until_the_first_collision() {
    let mut e = Env::new(20, 20).unwrap();
    let mut ticks = 0;
    loop {
        assert!(e.can_step(3));
        let (obs, reward, done) = e.step(3);
        ticks += 1;
        if done {
            assert_eq!(reward, -1);
            assert_eq!(obs.head_x, 19);
            break;
        }
        assert!(reward == 0 || reward == 1);
        assert_eq!(obs.head_x, 10 + ticks);
    }
    assert_eq!(ticks, 10);
}

#[test]
fn random_agent_picks_each_of_the_four_actions() {
    let agent = RandomAgent::new();
    let mut seen = [0usize; 4];
    for _ in 0..4000 {
        let action = agent.act();
        assert!(action < ACTION_COUNT);
        seen[action] += 1;
    }
    assert_eq!(ACTION_COUNT, 4);
    for count in seen {
        assert!(count > 0);
    }
}
