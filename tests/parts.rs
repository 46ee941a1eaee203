use snake::component::{Direction, Position, SnakeHead};
use snake::game::Game;
use snake::input::{desired_direction, steer, Keys};
use snake::resource::{FoodSpawnTimer, SnakeMoveTimer, Timer};
use snake::score::Score;
use snake::state::{GameState, TransitionError};
use snake::world::{Entity, Entry, Kind, World};

#[test]
fn opposite_directions() {
    assert_eq!(Direction::North.opposite(), Direction::South);
    assert_eq!(Direction::South.opposite(), Direction::North);
    assert_eq!(Direction::West.opposite(), Direction::East);
    assert_eq!(Direction::East.opposite(), Direction::West);
}

#[test]
fn step_moves_one_cell() {
    let c = Position { x: 3, y: 3 };
    assert_eq!(c.step(Direction::North), Position { x: 3, y: 4 });
    assert_eq!(c.step(Direction::South), Position { x: 3, y: 2 });
    assert_eq!(c.step(Direction::West), Position { x: 2, y: 3 });
    assert_eq!(c.step(Direction::East), Position { x: 4, y: 3 });
}

#[test]
fn arena_bounds() {
    assert!(Position { x: 0, y: 0 }.in_arena());
    assert!(Position { x: 9, y: 9 }.in_arena());
    assert!(!Position { x: 10, y: 0 }.in_arena());
    assert!(!Position { x: 0, y: 10 }.in_arena());
    assert!(!Position { x: -1, y: 5 }.in_arena());
    assert!(!Position { x: 5, y: -1 }.in_arena());
}

#[test]
fn key_priority() {
    let all = Keys { up: true, down: true, left: true, right: true };
    assert_eq!(desired_direction(all, Direction::East), Direction::North);
    let dl = Keys { up: false, down: true, left: true, right: false };
    assert_eq!(desired_direction(dl, Direction::East), Direction::South);
    let lr = Keys { up: false, down: false, left: true, right: true };
    assert_eq!(desired_direction(lr, Direction::North), Direction::West);
    let r = Keys { up: false, down: false, left: false, right: true };
    assert_eq!(desired_direction(r, Direction::North), Direction::East);
    assert_eq!(desired_direction(Keys::default(), Direction::South), Direction::South);
}

#[test]
fn steering_refuses_reversal() {
    assert_eq!(steer(Direction::North, Direction::South), Direction::North);
    assert_eq!(steer(Direction::East, Direction::West), Direction::East);
    assert_eq!(steer(Direction::North, Direction::East), Direction::East);
    assert_eq!(steer(Direction::West, Direction::West), Direction::West);
}

#[test]
fn head_defaults_north() {
    assert_eq!(SnakeHead::default().direction, Direction::North);
}

#[test]
fn timer_fires_and_carries_over() {
    let mut t = Timer::new(500);
    assert!(!t.tick(300));
    assert_eq!(t.elapsed_ms, 300);
    assert!(!t.finished());
    assert!(t.tick(300));
    assert_eq!(t.elapsed_ms, 100);
    assert!(t.finished());
    assert!(t.tick(1200));
    assert_eq!(t.elapsed_ms, 300);
    assert!(t.tick(u64::MAX));
}

#[test]
fn timer_periods() {
    assert_eq!(SnakeMoveTimer::default().0.period_ms, 500);
    assert_eq!(FoodSpawnTimer::default().0.period_ms, 5000);
}

#[test]
fn score_counts_and_resets() {
    let mut s = Score::default();
    assert_eq!(s.value(), 0);
    assert_eq!(s.text(), "0");
    for _ in 0..12 {
        s.increment();
    }
    assert_eq!(s.value(), 12);
    assert_eq!(s.text(), "12");
    s.reset();
    assert_eq!(s.value(), 0);
}

#[test]
fn score_text_of_large_value() {
    let mut s = Score::default();
    for _ in 0..1050 {
        s.increment();
    }
    assert_eq!(s.text(), "1050");
}

#[test]
fn state_defaults_to_loading() {
    assert_eq!(GameState::default(), GameState::Loading);
    assert_eq!(Game::new().state(), GameState::Loading);
}

#[test]
fn illegal_transitions_refused() {
    let mut g = Game::new();
    assert_eq!(
        g.transition(GameState::Running),
        Err(TransitionError { from: GameState::Loading, to: GameState::Running })
    );
    assert_eq!(g.state(), GameState::Loading);
    assert_eq!(g.transition(GameState::Starting), Ok(()));
    assert_eq!(
        g.transition(GameState::GameOver),
        Err(TransitionError { from: GameState::Starting, to: GameState::GameOver })
    );
    assert_eq!(g.transition(GameState::Running), Ok(()));
    assert_eq!(
        g.transition(GameState::Running),
        Err(TransitionError { from: GameState::Running, to: GameState::Running })
    );
    assert_eq!(g.transition(GameState::GameOver), Ok(()));
    assert_eq!(g.world().slot_count(), 2);
    assert!(g.world().get(Entity { index: 0 }).is_none());
    assert!(g.snake_positions().is_empty());
}

#[test]
fn transition_table() {
    assert!(GameState::Loading.can_transition(GameState::Starting));
    assert!(GameState::Starting.can_transition(GameState::Running));
    assert!(GameState::Running.can_transition(GameState::GameOver));
    assert!(GameState::GameOver.can_transition(GameState::Running));
    assert!(!GameState::Loading.can_transition(GameState::GameOver));
    assert!(!GameState::GameOver.can_transition(GameState::Loading));
}

#[test]
fn world_spawn_and_despawn() {
    let mut w = World::new();
    let food = Entry { kind: Kind::Food(snake::component::Food), pos: Position { x: 1, y: 2 } };
    let a = w.spawn(food);
    let b = w.spawn(food);
    assert_eq!(a, Entity { index: 0 });
    assert_eq!(b, Entity { index: 1 });
    w.set_position(b, Position { x: 5, y: 5 });
    assert_eq!(w.get(b).unwrap().pos, Position { x: 5, y: 5 });
    w.despawn(a);
    assert!(w.get(a).is_none());
    assert!(w.get(Entity { index: 7 }).is_none());
    assert_eq!(w.slot_count(), 2);
}
