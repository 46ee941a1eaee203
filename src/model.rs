use vstd::prelude::*;

use crate::component::{in_arena, step, Direction, Food, Position, SnakeHead, SnakeSegment};
use crate::input::{desired, steered, Keys};
use crate::resource::Timer;
use crate::state::GameState;
use crate::world::{live, Entity, Entry, Kind};

verus! {

/// The mathematical picture of a [`Game`].
pub struct GameModel {
    pub state: GameState,
    pub entities: Seq<Option<Entry>>,
    pub segments: Seq<Entity>,
    pub last_tail: Option<Position>,
    pub score: nat,
    pub move_timer: Timer,
    pub food_timer: Timer,
}

/// Where the head appears when a run begins.
pub open spec fn start_head() -> Position {
    Position { x: 3, y: 3 }
}

/// Where the first body segment appears when a run begins.
pub open spec fn start_tail() -> Position {
    Position { x: 3, y: 2 }
}

/// The entity `e` of the model (meaningful when it is live).
pub open spec fn entry_of(m: GameModel, e: Entity) -> Entry {
    m.entities[e.index as int]->0
}

/// The direction carried by a head; North for any other kind.
pub open spec fn direction_of(k: Kind) -> Direction {
    match k {
        Kind::Head(h) => h.direction,
        _ => Direction::North,
    }
}

/// The direction the snake's head travels in.
pub open spec fn head_direction(m: GameModel) -> Direction {
    direction_of(entry_of(m, m.segments[0]).kind)
}

/// The cells of the snake, head first.
pub open spec fn positions(m: GameModel) -> Seq<Position> {
    Seq::new(m.segments.len(), |i: int| entry_of(m, m.segments[i]).pos)
}

/// True when no segment of the snake sits in slot `k`.
pub open spec fn not_snake_slot(segments: Seq<Entity>, k: int) -> bool {
    forall|i: int| 0 <= i < segments.len() ==> #[trigger] segments[i].index != k
}

/// True when slot `o` holds a food at `p`.
pub open spec fn food_at(o: Option<Entry>, p: Position) -> bool {
    &&& o is Some
    &&& o->0.kind is Food
    &&& o->0.pos == p
}

/// True when slot `k` holds a head.
pub open spec fn head_at(m: GameModel, k: int) -> bool {
    &&& 0 <= k < m.entities.len()
    &&& m.entities[k] is Some
    &&& m.entities[k]->0.kind is Head
}

/// The shape of a running game: a snake of two or more distinct live
/// entities, a head first and body segments after it, no other head, and
/// a score that counts the segments grown.
pub open spec fn snake_shape(m: GameModel) -> bool {
    &&& m.segments.len() >= 2
    &&& forall|i: int| 0 <= i < m.segments.len() ==> live(m.entities, #[trigger] m.segments[i])
    &&& forall|i: int, j: int|
        0 <= i < m.segments.len() && 0 <= j < m.segments.len() && i != j
            ==> #[trigger] m.segments[i].index != #[trigger] m.segments[j].index
    &&& entry_of(m, m.segments[0]).kind is Head
    &&& forall|i: int| 1 <= i < m.segments.len() ==> (#[trigger] entry_of(m, m.segments[i])).kind is Segment
    &&& forall|k: int| #[trigger] head_at(m, k) ==> k == m.segments[0].index
    &&& m.score + 2 == m.segments.len()
}

/// Every live entity, and the remembered tail cell, lie in the arena.
pub open spec fn arena_ok(m: GameModel) -> bool {
    &&& forall|k: int| 0 <= k < m.entities.len() && (#[trigger] m.entities[k]) is Some
        ==> in_arena(m.entities[k]->0.pos)
    &&& m.last_tail is Some ==> in_arena(m.last_tail->0)
}

/// No entity is live.
pub open spec fn empty(entities: Seq<Option<Entry>>) -> bool {
    forall|k: int| 0 <= k < entities.len() ==> (#[trigger] entities[k]) is None
}

/// The snake's cells after one move: the head one step on in direction
/// `d`, every other segment in the cell of the one before it.
pub open spec fn advanced(prev: Seq<Position>, d: Direction) -> Seq<Position> {
    Seq::new(prev.len(), |i: int| if i == 0 { step(prev[0], d) } else { prev[i - 1] })
}

/// True when a head arriving at `head` ends the game: it left the arena or
/// ran into a cell the snake occupied before the move.
pub open spec fn collides(prev: Seq<Position>, head: Position) -> bool {
    !in_arena(head) || prev.contains(head)
}

/// `b` is `a` with the head turned as the held `keys` ask, a reversal refused.
pub open spec fn steer_effect(a: GameModel, b: GameModel, keys: Keys) -> bool {
    let h = a.segments[0];
    let d = steered(head_direction(a), desired(keys, head_direction(a)));
    b == GameModel {
        entities: a.entities.update(
            h.index as int,
            Some(Entry { kind: Kind::Head(SnakeHead { direction: d }), pos: entry_of(a, h).pos }),
        ),
        ..a
    }
}

/// `b` is `a` after the snake moved one cell, before anything is eaten:
/// the snake's cells are `advanced`, the old tail cell is remembered, and
/// every other slot is untouched.
pub open spec fn move_effect(a: GameModel, b: GameModel) -> bool {
    let prev = positions(a);
    let next = advanced(prev, head_direction(a));
    &&& b.state == a.state
    &&& b.segments == a.segments
    &&& b.score == a.score
    &&& b.move_timer == a.move_timer
    &&& b.food_timer == a.food_timer
    &&& b.last_tail == Some(prev.last())
    &&& b.entities.len() == a.entities.len()
    &&& forall|k: int| 0 <= k < a.entities.len() && not_snake_slot(a.segments, k)
        ==> #[trigger] b.entities[k] == a.entities[k]
    &&& forall|i: int| 0 <= i < a.segments.len()
        ==> b.entities[#[trigger] a.segments[i].index as int] == Some(
            Entry { kind: entry_of(a, a.segments[i]).kind, pos: next[i] },
        )
}

/// The slots after every food at `p` is despawned.
pub open spec fn eaten(entities: Seq<Option<Entry>>, p: Position) -> Seq<Option<Entry>> {
    Seq::new(entities.len(), |k: int| if food_at(entities[k], p) { None } else { entities[k] })
}

/// True when some live food lies at `p`.
pub open spec fn has_food_at(entities: Seq<Option<Entry>>, p: Position) -> bool {
    exists|k: int| 0 <= k < entities.len() && #[trigger] food_at(entities[k], p)
}

/// `b` is `a` after one firing of the move timer. The snake moves one
/// cell. If its head left the arena or ran into the snake, the game is
/// over and every entity is gone. Otherwise each food under the head is
/// despawned, and if there was any the snake grows by one segment in the
/// old tail cell and the score goes up by one: foods stacked in one cell
/// count as a single meal.
pub open spec fn tick_effect(a: GameModel, b: GameModel, game_over: bool) -> bool {
    let prev = positions(a);
    let d = head_direction(a);
    let head = step(prev[0], d);
    let ate = has_food_at(a.entities, head);
    &&& game_over == collides(prev, head)
    &&& b.move_timer == a.move_timer
    &&& b.food_timer == a.food_timer
    &&& b.last_tail == Some(prev.last())
    &&& game_over ==> {
        &&& b.state == GameState::GameOver
        &&& empty(b.entities)
        &&& b.entities.len() == a.entities.len()
        &&& b.segments.len() == 0
        &&& b.score == a.score
    }
    &&& !game_over ==> {
        &&& b.state == GameState::Running
        &&& b.segments == if ate {
            a.segments.push(Entity { index: a.entities.len() as usize })
        } else {
            a.segments
        }
        &&& positions(b) == if ate {
            advanced(prev, d).push(prev.last())
        } else {
            advanced(prev, d)
        }
        &&& b.score == a.score + if ate { 1int } else { 0int }
        &&& b.entities.len() == a.entities.len() + if ate { 1int } else { 0int }
        &&& forall|k: int| 0 <= k < a.entities.len() && not_snake_slot(a.segments, k)
            ==> #[trigger] b.entities[k] == if food_at(a.entities[k], head) { None } else { a.entities[k] }
        &&& forall|i: int| 0 <= i < a.segments.len()
            ==> #[trigger] entry_of(b, a.segments[i]).kind == entry_of(a, a.segments[i]).kind
        &&& ate ==> b.entities.last() == Some(Entry { kind: Kind::Segment(SnakeSegment), pos: prev.last() })
    }
}

/// `b` is `a` after its food timer ticked by `delta_ms`; when the timer
/// fired, one food was spawned in some cell of the arena.
pub open spec fn food_effect(a: GameModel, b: GameModel, delta_ms: u64) -> bool {
    let rest = GameModel { food_timer: a.food_timer.ticked(delta_ms), ..a };
    if a.food_timer.fires(delta_ms) {
        exists|p: Position| in_arena(p) && b == #[trigger] with_food(rest, p)
    } else {
        b == rest
    }
}

/// `m` with one more food, at `p`.
pub open spec fn with_food(m: GameModel, p: Position) -> GameModel {
    GameModel {
        entities: m.entities.push(Some(Entry { kind: Kind::Food(Food), pos: p })),
        ..m
    }
}

/// `b` is `a` after one frame of play with `keys` held and `delta_ms`
/// elapsed: the move timer ticks, the head turns, the snake makes its move
/// when the move timer fired, and, unless that ended the game, the food
/// spawner runs.
pub open spec fn frame_effect(a: GameModel, b: GameModel, keys: Keys, delta_ms: u64, game_over: bool) -> bool {
    let fired = a.move_timer.fires(delta_ms);
    let timed = GameModel { move_timer: a.move_timer.ticked(delta_ms), ..a };
    exists|s: GameModel, t: GameModel|
        #[trigger] steer_effect(timed, s, keys) && #[trigger] frame_rest(s, t, b, fired, delta_ms, game_over)
}

/// What follows the turn of the head within a frame: `s` makes its move
/// into `t` when `fired`, and `t` runs the food spawner into `b` unless the
/// game ended.
pub open spec fn frame_rest(s: GameModel, t: GameModel, b: GameModel, fired: bool, delta_ms: u64, game_over: bool) -> bool {
    &&& if fired { tick_effect(s, t, game_over) } else { t == s && !game_over }
    &&& if game_over { b == t } else { food_effect(t, b, delta_ms) }
}

impl GameModel {
    /// The invariant of a game: timers well formed; while running, a snake
    /// of the right shape inside the arena; otherwise no live entity.
    pub open spec fn wf(self) -> bool {
        &&& self.move_timer.wf()
        &&& self.food_timer.wf()
        &&& if self.state is Running {
            snake_shape(self) && arena_ok(self)
        } else {
            empty(self.entities) && self.segments.len() == 0
        }
    }
}

/// `b` is the start of a run that follows `a`: a head travelling north at
/// (3,3), one segment at (3,2), a score of zero and no remembered tail.
pub open spec fn started(a: GameModel, b: GameModel) -> bool {
    let n = a.entities.len();
    &&& b.state == GameState::Running
    &&& b.entities == a.entities.push(
        Some(Entry { kind: Kind::Head(SnakeHead { direction: Direction::North }), pos: start_head() }),
    ).push(Some(Entry { kind: Kind::Segment(SnakeSegment), pos: start_tail() }))
    &&& b.segments == seq![Entity { index: n as usize }, Entity { index: (n + 1) as usize }]
    &&& b.score == 0
    &&& b.last_tail is None
}

} // verus!
