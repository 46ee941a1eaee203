use rand::Rng;
use vstd::prelude::*;

use crate::component::{in_arena, step, Direction, Food, Position, SnakeHead, SnakeSegment, ARENA_HEIGHT, ARENA_WIDTH};
use crate::input::{desired_direction, steer, Keys};
use crate::model::{
    advanced, collides, eaten, empty, entry_of, food_at, food_effect, frame_effect, frame_rest, has_food_at,
    head_at, head_direction, move_effect, not_snake_slot, positions, started, steer_effect,
    tick_effect, with_food, GameModel,
};
use crate::resource::{
    FoodSpawnTimer, LastTailPosition, SnakeMoveTimer, SnakeSegments, Timer, FOOD_PERIOD_MS, MOVE_PERIOD_MS,
};
use crate::score::Score;
use crate::state::{can_transition, GameState, TransitionError};
use crate::world::{live, Entity, Entry, Kind, World};

verus! {

/// The whole game: state machine, entity store and the resources the
/// simulation reads and writes.
pub struct Game {
    state: GameState,
    world: World,
    segments: SnakeSegments,
    last_tail: LastTailPosition,
    score: Score,
    move_timer: SnakeMoveTimer,
    food_timer: FoodSpawnTimer,
}

impl View for Game {
    type V = GameModel;

    closed spec fn view(&self) -> GameModel {
        GameModel {
            state: self.state,
            entities: self.world@,
            segments: self.segments.0@,
            last_tail: self.last_tail.0,
            score: self.score@,
            move_timer: self.move_timer.0,
            food_timer: self.food_timer.0,
        }
    }
}

/// A move that does not end the game keeps the invariant of a running game.
proof fn lemma_move_keeps_wf(a: GameModel, b: GameModel)
    requires
        a.wf(),
        a.state is Running,
        move_effect(a, b),
        !collides(positions(a), step(positions(a)[0], head_direction(a))),
    ensures
        b.wf(),
{
    let prev = positions(a);
    let next = advanced(prev, head_direction(a));
    let n = a.segments.len();
    assert forall|i: int| 0 <= i < n implies live(b.entities, #[trigger] b.segments[i]) by {
        assert(b.entities[a.segments[i].index as int] is Some);
    }
    assert forall|i: int| 0 <= i < n implies #[trigger] entry_of(b, b.segments[i]).kind == entry_of(a, a.segments[i]).kind by {
        assert(b.entities[a.segments[i].index as int] is Some);
    }
    assert(entry_of(b, b.segments[0]).kind == entry_of(a, a.segments[0]).kind);
    assert forall|i: int| 1 <= i < n implies (#[trigger] entry_of(b, b.segments[i])).kind is Segment by {
        assert(entry_of(b, b.segments[i]).kind == entry_of(a, a.segments[i]).kind);
    }
    assert forall|k: int| #[trigger] head_at(b, k) implies k == b.segments[0].index by {
        if not_snake_slot(a.segments, k) {
            assert(b.entities[k] == a.entities[k]);
            assert(head_at(a, k));
        } else {
            let i = choose|i: int| 0 <= i < n && #[trigger] a.segments[i].index == k;
            assert(entry_of(b, b.segments[i]).kind == entry_of(a, a.segments[i]).kind);
            if i != 0 {
                assert(entry_of(a, a.segments[i]).kind is Segment);
            }
        }
    }
    assert(live(a.entities, a.segments[0]));
    assert(in_arena(prev[0]));
    assert forall|k: int| 0 <= k < b.entities.len() && (#[trigger] b.entities[k]) is Some
        implies in_arena(b.entities[k]->0.pos) by {
        if not_snake_slot(a.segments, k) {
            assert(b.entities[k] == a.entities[k]);
        } else {
            let i = choose|i: int| 0 <= i < n && #[trigger] a.segments[i].index == k;
            assert(b.entities[a.segments[i].index as int] == Some(
                Entry { kind: entry_of(a, a.segments[i]).kind, pos: next[i] },
            ));
            if i != 0 {
                assert(live(a.entities, a.segments[i - 1]));
                assert(a.entities[a.segments[i - 1].index as int] is Some);
            }
        }
    }
    assert(live(a.entities, a.segments[n - 1]));
    assert(a.entities[a.segments[n - 1].index as int] is Some);
}

/// A move that does not collide, followed by eating and growing, has the
/// effect that `tick_effect` describes.
proof fn lemma_tick_continues(a: GameModel, moved: GameModel, fed: GameModel, b: GameModel, ate: bool)
    requires
        a.wf(),
        a.state is Running,
        move_effect(a, moved),
        !collides(positions(a), step(positions(a)[0], head_direction(a))),
        moved.wf(),
        fed == (GameModel {
            entities: eaten(moved.entities, entry_of(moved, moved.segments[0]).pos),
            ..moved
        }),
        ate == has_food_at(moved.entities, entry_of(moved, moved.segments[0]).pos),
        fed.entities.len() <= usize::MAX,
        b == if ate && fed.last_tail is Some {
            GameModel {
                entities: fed.entities.push(
                    Some(Entry { kind: Kind::Segment(SnakeSegment), pos: fed.last_tail->0 }),
                ),
                segments: fed.segments.push(Entity { index: fed.entities.len() as usize }),
                score: fed.score + 1,
                ..fed
            }
        } else {
            fed
        },
    ensures
        tick_effect(a, b, false),
{
    let prev = positions(a);
    let d = head_direction(a);
    let next = advanced(prev, d);
    let head = step(prev[0], d);
    let n = a.segments.len();
    assert(moved.entities[a.segments[0].index as int] == Some(
        Entry { kind: entry_of(a, a.segments[0]).kind, pos: next[0] },
    ));
    assert(entry_of(moved, moved.segments[0]).pos == head);
    // A slot of the snake never holds a food, before or after the move.
    assert forall|i: int| 0 <= i < n implies
        !food_at(#[trigger] moved.entities[a.segments[i].index as int], head)
        && !food_at(a.entities[a.segments[i].index as int], head)
        && fed.entities[a.segments[i].index as int] == moved.entities[a.segments[i].index as int] by {
        assert(live(a.entities, a.segments[i]));
        if i == 0 {
            assert(entry_of(a, a.segments[0]).kind is Head);
        } else {
            assert(entry_of(a, a.segments[i]).kind is Segment);
        }
    }
    assert forall|k: int| 0 <= k < a.entities.len() implies
        #[trigger] food_at(moved.entities[k], head) == food_at(a.entities[k], head) by {
        if !not_snake_slot(a.segments, k) {
            let i = choose|i: int| 0 <= i < n && #[trigger] a.segments[i].index == k;
            assert(!food_at(moved.entities[a.segments[i].index as int], head));
        }
    }
    if has_food_at(moved.entities, head) {
        let k = choose|k: int| 0 <= k < moved.entities.len() && #[trigger] food_at(moved.entities[k], head);
        assert(food_at(a.entities[k], head));
    }
    if has_food_at(a.entities, head) {
        let k = choose|k: int| 0 <= k < a.entities.len() && #[trigger] food_at(a.entities[k], head);
        assert(food_at(moved.entities[k], head));
    }
    assert(ate == has_food_at(a.entities, head));
    assert forall|i: int| 0 <= i < n implies #[trigger] b.entities[a.segments[i].index as int]
        == Some(Entry { kind: entry_of(a, a.segments[i]).kind, pos: next[i] }) by {
        assert(live(a.entities, a.segments[i]));
        assert(moved.entities[a.segments[i].index as int] == Some(
            Entry { kind: entry_of(a, a.segments[i]).kind, pos: next[i] },
        ));
        assert(fed.entities[a.segments[i].index as int] == moved.entities[a.segments[i].index as int]);
    }
    assert forall|i: int| 0 <= i < n implies
        #[trigger] entry_of(b, a.segments[i]).kind == entry_of(a, a.segments[i]).kind by {
        assert(b.entities[a.segments[i].index as int]
            == Some(Entry { kind: entry_of(a, a.segments[i]).kind, pos: next[i] }));
    }
    let want = if ate { next.push(prev.last()) } else { next };
    assert forall|i: int| 0 <= i < b.segments.len() implies #[trigger] positions(b)[i] == want[i] by {
        if i < n {
            assert(b.segments[i] == a.segments[i]);
            assert(b.entities[a.segments[i].index as int]
                == Some(Entry { kind: entry_of(a, a.segments[i]).kind, pos: next[i] }));
        } else {
            assert(b.segments[i].index == fed.entities.len());
            assert(b.entities[fed.entities.len() as int]
                == Some(Entry { kind: Kind::Segment(SnakeSegment), pos: prev.last() }));
        }
    }
    assert(positions(b) =~= want);
    assert forall|k: int| 0 <= k < a.entities.len() && not_snake_slot(a.segments, k) implies
        #[trigger] b.entities[k] == if food_at(a.entities[k], head) { None } else { a.entities[k] } by {
        assert(moved.entities[k] == a.entities[k]);
        assert(fed.entities[k] == eaten(moved.entities, head)[k]);
    }
}

/// The invariant does not depend on the timers' progress.
proof fn lemma_wf_timers(a: GameModel, b: GameModel)
    requires
        a.wf(),
        b == (GameModel { move_timer: b.move_timer, food_timer: b.food_timer, ..a }),
        b.move_timer.wf(),
        b.food_timer.wf(),
    ensures
        b.wf(),
{
    assert forall|k: int| #[trigger] head_at(b, k) implies k == b.segments[0].index by {
        assert(head_at(a, k));
    }
    assert forall|i: int| 1 <= i < b.segments.len() implies (#[trigger] entry_of(b, b.segments[i])).kind is Segment by {
        assert(entry_of(a, a.segments[i]).kind is Segment);
    }
}

/// Relies on `rand::thread_rng` and `rand::Rng::gen_range`: a value drawn
/// from `0..bound`. `gen_range` panics on an empty range.
#[verifier::external_body]
fn random_below(bound: i32) -> (r: i32)
    requires
        bound > 0,
    ensures
        0 <= r < bound,
{
    rand::thread_rng().gen_range(0..bound)
}

/// Whether `p` is one of the cells in `cells`.
fn contains_position(cells: &Vec<Position>, p: Position) -> (r: bool)
    ensures
        r == cells@.contains(p),
{
    let mut i: usize = 0;
    while i < cells.len()
        invariant
            i <= cells@.len(),
            forall|j: int| 0 <= j < i ==> cells@[j] != p,
        decreases cells@.len() - i,
    {
        if cells[i] == p {
            return true;
        }
        i = i + 1;
    }
    false
}

impl Game {
    /// The invariant of the game.
    pub open spec fn wf(&self) -> bool {
        self@.wf()
    }

    /// A game in `Loading`, with no entity, a score of zero and fresh timers.
    pub fn new() -> (g: Game)
        ensures
            g.wf(),
            g@.state == GameState::Loading,
            g@.entities.len() == 0,
            g@.segments.len() == 0,
            g@.score == 0,
            g@.last_tail is None,
            g@.move_timer == (Timer { period_ms: MOVE_PERIOD_MS, elapsed_ms: 0, finished: false }),
            g@.food_timer == (Timer { period_ms: FOOD_PERIOD_MS, elapsed_ms: 0, finished: false }),
    {
        Game {
            state: GameState::Loading,
            world: World::new(),
            segments: SnakeSegments(Vec::new()),
            last_tail: LastTailPosition(None),
            score: Score::default(),
            move_timer: SnakeMoveTimer::default(),
            food_timer: FoodSpawnTimer::default(),
        }
    }

    /// The current phase.
    pub fn state(&self) -> (r: GameState)
        ensures
            r == self@.state,
    {
        self.state
    }

    /// The current score.
    pub fn score(&self) -> (r: u64)
        ensures
            r == self@.score,
    {
        self.score.value()
    }

    /// The score board's text: the score in decimal.
    pub fn score_text(&self) -> (r: String)
        ensures
            r@ == crate::score::decimal(self@.score),
    {
        self.score.text()
    }

    /// Samples the held keys and turns the head, unless that would reverse it.
    pub fn steer_head(&mut self, keys: Keys)
        requires
            old(self).wf(),
            old(self)@.state is Running,
        ensures
            final(self).wf(),
            steer_effect(old(self)@, final(self)@, keys),
            head_direction(final(self)@) != crate::component::opposite(head_direction(old(self)@)),
    {
        let h = self.segments.0[0];
        let entry = self.world.get(h).unwrap();
        let current = match entry.kind {
            Kind::Head(head) => head.direction,
            _ => Direction::North,
        };
        let d = steer(current, desired_direction(keys, current));
        self.world.set(h, Entry { kind: Kind::Head(SnakeHead { direction: d }), pos: entry.pos });
        proof {
            let m = self@;
            let o = old(self)@;
            assert(m.segments == o.segments);
            assert forall|i: int| 0 <= i < m.segments.len() implies live(m.entities, #[trigger] m.segments[i]) by {
                assert(live(o.entities, o.segments[i]));
            }
            assert forall|i: int| 1 <= i < m.segments.len() implies (#[trigger] entry_of(m, m.segments[i])).kind is Segment by {
                assert(entry_of(o, o.segments[i]).kind is Segment);
                assert(m.segments[i].index != m.segments[0].index);
            }
            assert forall|k: int| #[trigger] head_at(m, k) implies k == m.segments[0].index by {
                if k != h.index {
                    assert(head_at(o, k));
                }
            }
            assert forall|k: int| 0 <= k < m.entities.len() && (#[trigger] m.entities[k]) is Some
                implies in_arena(m.entities[k]->0.pos) by {
                assert(o.entities[k] is Some);
            }
        }
    }

    /// Moves the snake one cell: the head steps on in its direction and
    /// each other segment takes the cell of the one before it. Returns
    /// whether the new head cell ends the game.
    fn snake_movement(&mut self) -> (game_over: bool)
        requires
            old(self).wf(),
            old(self)@.state is Running,
        ensures
            move_effect(old(self)@, final(self)@),
            !game_over ==> final(self).wf(),
            game_over == collides(positions(old(self)@), step(positions(old(self)@)[0], head_direction(old(self)@))),
    {
        let ghost o = self@;
        let n = self.segments.0.len();
        let mut prev: Vec<Position> = Vec::new();
        let mut i: usize = 0;
        while i < n
            invariant
                self@ == o,
                o.wf(),
                o.state is Running,
                n == o.segments.len(),
                i <= n,
                prev@.len() == i,
                forall|j: int| 0 <= j < i ==> prev@[j] == #[trigger] positions(o)[j],
            decreases n - i,
        {
            let e = self.segments.0[i];
            proof {
                assert(live(o.entities, o.segments[i as int]));
            }
            let entry = self.world.get(e).unwrap();
            prev.push(entry.pos);
            i = i + 1;
        }
        assert(prev@ =~= positions(o));
        let h = self.segments.0[0];
        let head_entry = self.world.get(h).unwrap();
        let d = match head_entry.kind {
            Kind::Head(head) => head.direction,
            _ => Direction::North,
        };
        proof {
            assert(live(o.entities, o.segments[0]));
            assert(o.entities[h.index as int] is Some);
        }
        let new_head = prev[0].step(d);
        let game_over = !new_head.in_arena() || contains_position(&prev, new_head);
        let ghost next = advanced(prev@, d);
        let mut j: usize = 1;
        while j < n
            invariant
                o.wf(),
                o.state is Running,
                n == o.segments.len(),
                1 <= j <= n,
                prev@ == positions(o),
                next == advanced(prev@, head_direction(o)),
                self.state == o.state,
                self.segments.0@ == o.segments,
                self.score@ == o.score,
                self.last_tail == LastTailPosition(o.last_tail),
                self.move_timer.0 == o.move_timer,
                self.food_timer.0 == o.food_timer,
                self.world@.len() == o.entities.len(),
                forall|k: int| 0 <= k < o.entities.len() && not_snake_slot(o.segments, k)
                    ==> #[trigger] self.world@[k] == o.entities[k],
                forall|q: int| 0 <= q < n ==> self.world@[#[trigger] o.segments[q].index as int] == Some(
                    Entry { kind: entry_of(o, o.segments[q]).kind, pos: if 1 <= q < j { next[q] } else { prev@[q] } },
                ),
            decreases n - j,
        {
            let e = self.segments.0[j];
            let ghost before = self.world@;
            proof {
                assert(live(o.entities, o.segments[j as int]));
            }
            self.world.set_position(e, prev[j - 1]);
            proof {
                assert forall|q: int| 0 <= q < n implies self.world@[#[trigger] o.segments[q].index as int] == Some(
                    Entry { kind: entry_of(o, o.segments[q]).kind, pos: if 1 <= q < j + 1 { next[q] } else { prev@[q] } },
                ) by {
                    if q != j {
                        assert(o.segments[q].index != o.segments[j as int].index);
                    }
                }
                assert forall|k: int| 0 <= k < o.entities.len() && not_snake_slot(o.segments, k)
                    implies #[trigger] self.world@[k] == o.entities[k] by {
                    assert(o.segments[j as int].index != k);
                }
            }
            j = j + 1;
        }
        proof {
            assert(live(o.entities, o.segments[0]));
        }
        self.world.set_position(h, new_head);
        self.last_tail = LastTailPosition(Some(prev[n - 1]));
        proof {
            let m = self@;
            assert forall|q: int| 0 <= q < n implies m.entities[#[trigger] o.segments[q].index as int] == Some(
                Entry { kind: entry_of(o, o.segments[q]).kind, pos: next[q] },
            ) by {
                if q != 0 {
                    assert(o.segments[q].index != o.segments[0].index);
                }
            }
            assert forall|k: int| 0 <= k < o.entities.len() && not_snake_slot(o.segments, k)
                implies #[trigger] m.entities[k] == o.entities[k] by {
                assert(o.segments[0].index != k);
            }
            if !game_over {
                lemma_move_keeps_wf(o, m);
            }
        }
        game_over
    }

    /// Despawns every food under the head and says whether there was one.
    fn snake_eating(&mut self) -> (ate: bool)
        requires
            old(self).wf(),
            old(self)@.state is Running,
        ensures
            final(self).wf(),
            final(self)@ == (GameModel {
                entities: eaten(old(self)@.entities, entry_of(old(self)@, old(self)@.segments[0]).pos),
                ..old(self)@
            }),
            ate == has_food_at(old(self)@.entities, entry_of(old(self)@, old(self)@.segments[0]).pos),
            final(self)@.entities.len() <= usize::MAX,
    {
        let ghost o = self@;
        let h = self.segments.0[0];
        proof {
            assert(live(o.entities, o.segments[0]));
        }
        let head_pos = self.world.get(h).unwrap().pos;
        let n = self.world.slot_count();
        let mut ate = false;
        let mut k: usize = 0;
        while k < n
            invariant
                o.wf(),
                o.state is Running,
                head_pos == entry_of(o, o.segments[0]).pos,
                n == o.entities.len(),
                k <= n,
                self@ == (GameModel { entities: self.world@, ..o }),
                self.world@.len() == n,
                forall|q: int| 0 <= q < k ==> #[trigger] self.world@[q] == eaten(o.entities, head_pos)[q],
                forall|q: int| k <= q < n ==> #[trigger] self.world@[q] == o.entities[q],
                ate == exists|q: int| 0 <= q < k && #[trigger] food_at(o.entities[q], head_pos),
            decreases n - k,
        {
            let e = Entity { index: k };
            let present = self.world.get(e);
            let is_food = match present {
                Some(entry) => match entry.kind {
                    Kind::Food(_) => entry.pos == head_pos,
                    _ => false,
                },
                None => false,
            };
            if is_food {
                self.world.despawn(e);
                ate = true;
            }
            proof {
                assert(food_at(o.entities[k as int], head_pos) == is_food);
                if !ate {
                    assert forall|q: int| 0 <= q < k + 1 implies !#[trigger] food_at(o.entities[q], head_pos) by {
                        if q < k {
                            assert(!(0 <= q < k && food_at(o.entities[q], head_pos)));
                        }
                    }
                }
            }
            k = k + 1;
        }
        proof {
            let m = self@;
            assert(self.world@ =~= eaten(o.entities, head_pos));
            assert(ate == has_food_at(o.entities, head_pos));
            assert forall|k: int| 0 <= k < m.entities.len() && (#[trigger] m.entities[k]) is Some
                implies in_arena(m.entities[k]->0.pos) by {
                assert(m.entities[k] == o.entities[k]);
            }
            assert forall|i: int| 0 <= i < m.segments.len() implies #[trigger] m.entities[m.segments[i].index as int] == o.entities[o.segments[i].index as int] by {
                assert(live(o.entities, o.segments[i]));
                if i == 0 {
                    assert(entry_of(o, o.segments[0]).kind is Head);
                } else {
                    assert(entry_of(o, o.segments[i]).kind is Segment);
                }
            }
            assert forall|i: int| 0 <= i < m.segments.len() implies live(m.entities, #[trigger] m.segments[i]) by {
                assert(m.entities[m.segments[i].index as int] == o.entities[o.segments[i].index as int]);
                assert(live(o.entities, o.segments[i]));
            }
            assert(m.entities[m.segments[0].index as int] == o.entities[o.segments[0].index as int]);
            assert forall|i: int| 1 <= i < m.segments.len() implies (#[trigger] entry_of(m, m.segments[i])).kind is Segment by {
                assert(m.entities[m.segments[i].index as int] == o.entities[o.segments[i].index as int]);
                assert(entry_of(o, o.segments[i]).kind is Segment);
            }
            assert forall|k: int| #[trigger] head_at(m, k) implies k == m.segments[0].index by {
                assert(m.entities[k] == o.entities[k]);
                assert(head_at(o, k));
            }
        }
        ate
    }

    /// When `grow` is set and a tail cell is remembered, spawns a segment
    /// there, appends it to the snake and adds one point.
    fn snake_growth(&mut self, grow: bool)
        requires
            old(self).wf(),
            old(self)@.state is Running,
        ensures
            final(self).wf(),
            final(self)@ == if grow && old(self)@.last_tail is Some {
                GameModel {
                    entities: old(self)@.entities.push(
                        Some(Entry { kind: Kind::Segment(SnakeSegment), pos: old(self)@.last_tail->0 }),
                    ),
                    segments: old(self)@.segments.push(Entity { index: old(self)@.entities.len() as usize }),
                    score: old(self)@.score + 1,
                    ..old(self)@
                }
            } else {
                old(self)@
            },
    {
        if !grow {
            return;
        }
        match self.last_tail.0 {
            Some(tail) => {
                let ghost o = self@;
                let e = self.world.spawn(Entry { kind: Kind::Segment(SnakeSegment), pos: tail });
                self.segments.0.push(e);
                let len = self.segments.0.len();
                assert(usize::MAX <= u64::MAX);
                self.score.increment();
                proof {
                    let m = self@;
                    let n: int = o.segments.len() as int;
                    assert(m.segments[n] == e);
                    assert forall|i: int| 0 <= i < n implies #[trigger] m.segments[i] == o.segments[i] && live(o.entities, o.segments[i]) by {}
                    assert forall|i: int| 0 <= i < m.segments.len() implies live(m.entities, #[trigger] m.segments[i]) by {
                        if i < n {
                            assert(live(o.entities, o.segments[i]));
                        }
                    }
                    assert forall|i: int, j: int|
                        0 <= i < m.segments.len() && 0 <= j < m.segments.len() && i != j
                            implies #[trigger] m.segments[i].index != #[trigger] m.segments[j].index by {
                        if i < n {
                            assert(live(o.entities, o.segments[i]));
                        }
                        if j < n {
                            assert(live(o.entities, o.segments[j]));
                        }
                    }
                    assert(live(o.entities, o.segments[0]));
                    assert(entry_of(m, m.segments[0]) == entry_of(o, o.segments[0]));
                    assert forall|i: int| 1 <= i < m.segments.len() implies (#[trigger] entry_of(m, m.segments[i])).kind is Segment by {
                        if i < n {
                            assert(live(o.entities, o.segments[i]));
                            assert(entry_of(m, m.segments[i]) == entry_of(o, o.segments[i]));
                        }
                    }
                    assert forall|k: int| #[trigger] head_at(m, k) implies k == m.segments[0].index by {
                        if k < o.entities.len() {
                            assert(head_at(o, k));
                        }
                    }
                    assert forall|k: int| 0 <= k < m.entities.len() && (#[trigger] m.entities[k]) is Some
                        implies in_arena(m.entities[k]->0.pos) by {
                        if k < o.entities.len() {
                            assert(m.entities[k] == o.entities[k]);
                        }
                    }
                }
            },
            None => {},
        }
    }

    /// Runs one firing of the move timer: the snake moves; a collision
    /// ends the game, and otherwise the snake eats and grows.
    pub fn move_tick(&mut self) -> (game_over: bool)
        requires
            old(self).wf(),
            old(self)@.state is Running,
        ensures
            final(self).wf(),
            tick_effect(old(self)@, final(self)@, game_over),
    {
        let ghost a = self@;
        let game_over = self.snake_movement();
        let ghost moved = self@;
        if game_over {
            self.cleanup();
            self.state = GameState::GameOver;
            return true;
        }
        proof {
            lemma_move_keeps_wf(a, moved);
        }
        let ate = self.snake_eating();
        let ghost fed = self@;
        self.snake_growth(ate);
        proof {
            lemma_tick_continues(a, moved, fed, self@, ate);
        }
        false
    }

    /// Spawns a food at `pos`.
    pub fn spawn_food_at(&mut self, pos: Position) -> (e: Entity)
        requires
            old(self).wf(),
            old(self)@.state is Running,
            in_arena(pos),
        ensures
            final(self).wf(),
            final(self)@ == with_food(old(self)@, pos),
            e.index == old(self)@.entities.len(),
    {
        let ghost o = self@;
        let e = self.world.spawn(Entry { kind: Kind::Food(Food), pos });
        proof {
            let m = self@;
            assert forall|i: int| 0 <= i < m.segments.len() implies live(m.entities, #[trigger] m.segments[i]) by {
                assert(live(o.entities, o.segments[i]));
            }
            assert(live(o.entities, o.segments[0]));
            assert(entry_of(m, m.segments[0]) == entry_of(o, o.segments[0]));
            assert forall|i: int| 1 <= i < m.segments.len() implies (#[trigger] entry_of(m, m.segments[i])).kind is Segment by {
                assert(live(o.entities, o.segments[i]));
                assert(entry_of(m, m.segments[i]) == entry_of(o, o.segments[i]));
            }
            assert forall|k: int| #[trigger] head_at(m, k) implies k == m.segments[0].index by {
                if k < o.entities.len() {
                    assert(head_at(o, k));
                }
            }
            assert forall|k: int| 0 <= k < m.entities.len() && (#[trigger] m.entities[k]) is Some
                implies in_arena(m.entities[k]->0.pos) by {
                if k < o.entities.len() {
                    assert(m.entities[k] == o.entities[k]);
                }
            }
        }
        e
    }

    /// Ticks the food timer by `delta_ms`; when it fires, spawns a food in
    /// a cell of the arena drawn at random.
    pub fn food_spawner(&mut self, delta_ms: u64)
        requires
            old(self).wf(),
            old(self)@.state is Running,
        ensures
            final(self).wf(),
            food_effect(old(self)@, final(self)@, delta_ms),
    {
        let ghost o = self@;
        let fired = self.food_timer.0.tick(delta_ms);
        proof {
            lemma_wf_timers(o, self@);
        }
        if fired {
            let x = random_below(ARENA_WIDTH as i32);
            let y = random_below(ARENA_HEIGHT as i32);
            let pos = Position { x, y };
            let ghost rest = self@;
            self.spawn_food_at(pos);
            assert(in_arena(pos) && self@ == with_food(rest, pos));
        }
    }

    /// Plays one frame of a running game with `keys` held and `delta_ms`
    /// elapsed. Returns whether the game ended in this frame.
    pub fn run_frame(&mut self, keys: Keys, delta_ms: u64) -> (game_over: bool)
        requires
            old(self).wf(),
            old(self)@.state is Running,
        ensures
            final(self).wf(),
            frame_effect(old(self)@, final(self)@, keys, delta_ms, game_over),
            game_over <==> final(self)@.state is GameOver,
            !game_over ==> final(self)@.state is Running,
    {
        let ghost o = self@;
        let fired = self.move_timer.0.tick(delta_ms);
        proof {
            lemma_wf_timers(o, self@);
        }
        self.steer_head(keys);
        let ghost s = self@;
        let mut game_over = false;
        if fired {
            game_over = self.move_tick();
        }
        let ghost t = self@;
        if !game_over {
            self.food_spawner(delta_ms);
        }
        assert(frame_rest(s, t, self@, fired, delta_ms, game_over));
        game_over
    }

    /// Handles one frame of the game-over screen: a fresh press of Space
    /// starts a new run; anything else changes nothing.
    pub fn game_over_frame(&mut self, space_just_pressed: bool)
        requires
            old(self).wf(),
            old(self)@.state is GameOver,
        ensures
            final(self).wf(),
            space_just_pressed ==> started(old(self)@, final(self)@)
                && final(self)@.move_timer == old(self)@.move_timer
                && final(self)@.food_timer == old(self)@.food_timer,
            !space_just_pressed ==> final(self)@ == old(self)@,
    {
        if space_just_pressed {
            let r = self.transition(GameState::Running);
            assert(r is Ok);
        }
    }

    /// The direction the head travels in.
    pub fn head_direction(&self) -> (r: Direction)
        requires
            self.wf(),
            self@.state is Running,
        ensures
            r == head_direction(self@),
    {
        proof {
            assert(live(self@.entities, self@.segments[0]));
        }
        let entry = self.world.get(self.segments.0[0]).unwrap();
        match entry.kind {
            Kind::Head(head) => head.direction,
            _ => Direction::North,
        }
    }

    /// The cells of the snake, head first; empty when no run is going on.
    pub fn snake_positions(&self) -> (r: Vec<Position>)
        requires
            self.wf(),
        ensures
            r@ == positions(self@),
    {
        let n = self.segments.0.len();
        let mut r: Vec<Position> = Vec::new();
        let mut i: usize = 0;
        while i < n
            invariant
                self.wf(),
                n == self@.segments.len(),
                i <= n,
                r@.len() == i,
                forall|j: int| 0 <= j < i ==> r@[j] == #[trigger] positions(self@)[j],
            decreases n - i,
        {
            proof {
                assert(live(self@.entities, self@.segments[i as int]));
            }
            let entry = self.world.get(self.segments.0[i]).unwrap();
            r.push(entry.pos);
            i = i + 1;
        }
        assert(r@ =~= positions(self@));
        r
    }

    /// Whether some live food lies at `p`.
    pub fn has_food_at(&self, p: Position) -> (r: bool)
        ensures
            r == has_food_at(self@.entities, p),
    {
        let n = self.world.slot_count();
        let mut k: usize = 0;
        while k < n
            invariant
                n == self@.entities.len(),
                k <= n,
                forall|q: int| 0 <= q < k ==> !#[trigger] food_at(self@.entities[q], p),
            decreases n - k,
        {
            match self.world.get(Entity { index: k }) {
                Some(entry) => match entry.kind {
                    Kind::Food(_) => {
                        if entry.pos == p {
                            assert(food_at(self@.entities[k as int], p));
                            return true;
                        }
                    },
                    _ => {},
                },
                None => {},
            }
            k = k + 1;
        }
        false
    }

    /// The entity store, for drawing.
    pub fn world(&self) -> (r: &World)
        ensures
            r@ == self@.entities,
    {
        &self.world
    }

    /// Despawns every entity that carries a food, segment or head marker.
    fn cleanup(&mut self)
        ensures
            empty(final(self)@.entities),
            final(self)@.entities.len() == old(self)@.entities.len(),
            final(self)@.segments.len() == 0,
            final(self)@.state == old(self)@.state,
            final(self)@.score == old(self)@.score,
            final(self)@.last_tail == old(self)@.last_tail,
            final(self)@.move_timer == old(self)@.move_timer,
            final(self)@.food_timer == old(self)@.food_timer,
    {
        let n = self.world.slot_count();
        let mut k: usize = 0;
        while k < n
            invariant
                k <= n,
                n == self.world@.len(),
                n == old(self)@.entities.len(),
                forall|q: int| 0 <= q < k ==> (#[trigger] self.world@[q]) is None,
                self.state == old(self).state,
                self.score@ == old(self)@.score,
                self.last_tail == old(self).last_tail,
                self.move_timer.0 == old(self).move_timer.0,
                self.food_timer.0 == old(self).food_timer.0,
            decreases n - k,
        {
            let present = self.world.get(Entity { index: k });
            match present {
                Some(entry) => match entry.kind {
                    Kind::Head(_) | Kind::Segment(_) | Kind::Food(_) => {
                        self.world.despawn(Entity { index: k });
                    },
                },
                None => {},
            }
            k = k + 1;
        }
        self.segments = SnakeSegments(Vec::new());
    }

    /// Begins a run: resets the score, forgets the tail, and spawns the head
    /// at (3,3) travelling north with one segment at (3,2).
    fn spawn_snake(&mut self)
        requires
            old(self).wf(),
            !(old(self)@.state is Running),
        ensures
            started(old(self)@, final(self)@),
            final(self).wf(),
            final(self)@.move_timer == old(self)@.move_timer,
            final(self)@.food_timer == old(self)@.food_timer,
    {
        self.score.reset();
        self.last_tail = LastTailPosition(None);
        let head = self.world.spawn(
            Entry { kind: Kind::Head(SnakeHead::default()), pos: Position { x: 3, y: 3 } },
        );
        let tail = self.world.spawn(
            Entry { kind: Kind::Segment(SnakeSegment), pos: Position { x: 3, y: 2 } },
        );
        self.segments = SnakeSegments(vec![head, tail]);
        self.state = GameState::Running;
        proof {
            let m = self@;
            let o = old(self)@;
            assert(m.segments[0] == head && m.segments[1] == tail);
            assert forall|k: int| #[trigger] head_at(m, k) implies k == m.segments[0].index by {
                if k < o.entities.len() {
                    assert(m.entities[k] == o.entities[k]);
                }
            }
            assert forall|k: int| 0 <= k < m.entities.len() && (#[trigger] m.entities[k]) is Some
                implies in_arena(m.entities[k]->0.pos) by {
                if k < o.entities.len() {
                    assert(m.entities[k] == o.entities[k]);
                }
            }
        }
    }

    /// Moves the state machine to `to`, running the exit and entry effects:
    /// leaving `Running` despawns every entity; entering it starts a run.
    /// A transition that is not allowed changes nothing and is an error.
    pub fn transition(&mut self, to: GameState) -> (r: Result<(), TransitionError>)
        requires
            old(self).wf(),
        ensures
            final(self).wf(),
            r is Ok <==> can_transition(old(self)@.state, to),
            r is Err ==> final(self)@ == old(self)@
                && r == Err::<(), TransitionError>(TransitionError { from: old(self)@.state, to }),
            r is Ok ==> final(self)@.state == to,
            r is Ok ==> final(self)@.move_timer == old(self)@.move_timer
                && final(self)@.food_timer == old(self)@.food_timer,
            r is Ok && old(self)@.state is Running ==> empty(final(self)@.entities)
                && final(self)@.entities.len() == old(self)@.entities.len()
                && final(self)@.score == old(self)@.score,
            r is Ok && to is Running ==> started(old(self)@, final(self)@),
            r is Ok && !(to is Running) && !(old(self)@.state is Running)
                ==> final(self)@ == (GameModel { state: to, ..old(self)@ }),
    {
        let from = self.state;
        if !from.can_transition(to) {
            return Err(TransitionError { from, to });
        }
        match from {
            GameState::Running => {
                self.cleanup();
            },
            _ => {},
        }
        match to {
            GameState::Running => {
                self.spawn_snake();
            },
            _ => {
                self.state = to;
            },
        }
        Ok(())
    }
}

} // verus!
