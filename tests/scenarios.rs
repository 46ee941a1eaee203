use snake::component::{Direction, Position};
use snake::game::Game;
use snake::input::Keys;
use snake::resource::MOVE_PERIOD_MS;
use snake::state::GameState;
use snake::world::{Entity, Kind};

fn running_game() -> Game {
    let mut g = Game::new();
    g.transition(GameState::Starting).unwrap();
    g.transition(GameState::Running).unwrap();
    g
}

fn up() -> Keys {
    Keys { up: true, down: false, left: false, right: false }
}

fn down() -> Keys {
    Keys { up: false, down: true, left: false, right: false }
}

fn left() -> Keys {
    Keys { up: false, down: false, left: true, right: false }
}

fn right() -> Keys {
    Keys { up: false, down: false, left: false, right: true }
}

fn p(x: i32, y: i32) -> Position {
    Position { x, y }
}

fn heads(g: &Game) -> usize {
    let w = g.world();
    let mut n = 0;
    for i in 0..w.slot_count() {
        if let Some(e) = w.get(Entity { index: i }) {
            if let Kind::Head(_) = e.kind {
                n += 1;
            }
        }
    }
    n
}

fn live_count(g: &Game) -> usize {
    let w = g.world();
    (0..w.slot_count()).filter(|i| w.get(Entity { index: *i }).is_some()).count()
}

#[test]
fn spawn_places_head_and_tail() {
    let g = running_game();
    assert_eq!(g.state(), GameState::Running);
    assert_eq!(g.snake_positions(), vec![p(3, 3), p(3, 2)]);
    assert_eq!(g.head_direction(), Direction::North);
    assert_eq!(g.score(), 0);
    assert_eq!(heads(&g), 1);
}

#[test]
fn straight_line_movement() {
    let mut g = running_game();
    for _ in 0..3 {
        assert!(!g.run_frame(up(), MOVE_PERIOD_MS));
    }
    assert_eq!(g.snake_positions(), vec![p(3, 6), p(3, 5)]);
}

#[test]
fn tail_trails_the_head() {
    let mut g = running_game();
    g.run_frame(up(), MOVE_PERIOD_MS);
    assert_eq!(g.snake_positions(), vec![p(3, 4), p(3, 3)]);
    g.run_frame(up(), MOVE_PERIOD_MS);
    assert_eq!(g.snake_positions(), vec![p(3, 5), p(3, 4)]);
}

#[test]
fn reversal_blocked() {
    let mut g = running_game();
    assert!(!g.run_frame(down(), MOVE_PERIOD_MS));
    assert_eq!(g.snake_positions()[0], p(3, 4));
    assert_eq!(g.head_direction(), Direction::North);
}

#[test]
fn eat_and_grow() {
    let mut g = running_game();
    g.spawn_food_at(p(3, 4));
    assert!(g.has_food_at(p(3, 4)));
    g.run_frame(up(), MOVE_PERIOD_MS);
    assert_eq!(g.snake_positions()[0], p(3, 4));
    assert!(!g.has_food_at(p(3, 4)));
    assert_eq!(g.score(), 1);
    g.run_frame(up(), MOVE_PERIOD_MS);
    let cells = g.snake_positions();
    assert_eq!(cells.len(), 3);
    assert_eq!(cells[2], p(3, 3));
    assert_eq!(g.score(), 1);
    assert_eq!(g.score_text(), "1");
}

#[test]
fn wall_game_over() {
    let mut g = running_game();
    for _ in 0..6 {
        assert!(!g.run_frame(up(), MOVE_PERIOD_MS));
    }
    assert_eq!(g.snake_positions()[0], p(3, 9));
    assert!(g.run_frame(up(), MOVE_PERIOD_MS));
    assert_eq!(g.state(), GameState::GameOver);
    assert_eq!(live_count(&g), 0);
}

#[test]
fn self_collision() {
    let mut g = running_game();
    g.spawn_food_at(p(3, 4));
    g.spawn_food_at(p(3, 5));
    g.spawn_food_at(p(3, 6));
    for _ in 0..3 {
        assert!(!g.run_frame(up(), MOVE_PERIOD_MS));
    }
    assert_eq!(g.snake_positions(), vec![p(3, 6), p(3, 5), p(3, 4), p(3, 3), p(3, 2)]);
    assert_eq!(g.score(), 3);
    assert!(!g.run_frame(right(), MOVE_PERIOD_MS));
    assert!(!g.run_frame(down(), MOVE_PERIOD_MS));
    assert_eq!(g.snake_positions()[0], p(4, 5));
    assert!(g.run_frame(left(), MOVE_PERIOD_MS));
    assert_eq!(g.state(), GameState::GameOver);
    assert_eq!(live_count(&g), 0);
    assert_eq!(g.score(), 3);
}

#[test]
fn restart_after_game_over() {
    let mut g = running_game();
    g.spawn_food_at(p(3, 4));
    g.spawn_food_at(p(7, 7));
    for _ in 0..7 {
        g.run_frame(up(), MOVE_PERIOD_MS);
    }
    assert_eq!(g.state(), GameState::GameOver);
    assert_eq!(g.score(), 1);
    g.game_over_frame(false);
    assert_eq!(g.state(), GameState::GameOver);
    g.game_over_frame(true);
    assert_eq!(g.state(), GameState::Running);
    assert_eq!(g.snake_positions(), vec![p(3, 3), p(3, 2)]);
    assert_eq!(g.score(), 0);
    assert!(!g.has_food_at(p(7, 7)));
    assert_eq!(live_count(&g), 2);
    assert_eq!(heads(&g), 1);
}

#[test]
fn no_move_before_timer_fires() {
    let mut g = running_game();
    assert!(!g.run_frame(right(), 200));
    assert_eq!(g.snake_positions(), vec![p(3, 3), p(3, 2)]);
    assert_eq!(g.head_direction(), Direction::East);
    assert!(!g.run_frame(Keys::default(), 300));
    assert_eq!(g.snake_positions(), vec![p(4, 3), p(3, 3)]);
}

#[test]
fn turn_then_move() {
    let mut g = running_game();
    g.run_frame(left(), MOVE_PERIOD_MS);
    assert_eq!(g.snake_positions(), vec![p(2, 3), p(3, 3)]);
    g.run_frame(Keys::default(), MOVE_PERIOD_MS);
    assert_eq!(g.snake_positions(), vec![p(1, 3), p(2, 3)]);
    assert_eq!(g.head_direction(), Direction::West);
}

#[test]
fn invariants_hold_over_a_run() {
    let mut g = running_game();
    let keys = [up(), right(), right(), down(), down(), left(), up()];
    g.spawn_food_at(p(4, 4));
    let mut last_score = 0;
    for k in keys.iter() {
        let over = g.run_frame(*k, MOVE_PERIOD_MS);
        assert!(!over);
        let cells = g.snake_positions();
        assert!(cells.len() >= 2);
        for c in cells.iter() {
            assert!(c.in_arena());
        }
        assert_eq!(heads(&g), 1);
        assert!(g.score() >= last_score);
        assert_eq!(g.score() as usize + 2, cells.len());
        last_score = g.score();
    }
    assert_eq!(last_score, 1);
}

#[test]
fn food_spawner_places_food_in_arena() {
    let mut g = running_game();
    g.food_spawner(4999);
    assert_eq!(live_count(&g), 2);
    g.food_spawner(1);
    assert_eq!(live_count(&g), 3);
    let mut found = 0;
    for x in 0..10 {
        for y in 0..10 {
            if g.has_food_at(p(x, y)) {
                found += 1;
            }
        }
    }
    assert_eq!(found, 1);
}

#[test]
fn frame_spawns_food_every_five_seconds() {
    let mut g = running_game();
    g.run_frame(Keys::default(), 4000);
    assert_eq!(live_count(&g), 2);
    g.run_frame(Keys::default(), 1000);
    assert_eq!(live_count(&g), 3);
}
