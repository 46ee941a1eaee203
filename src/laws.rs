use vstd::prelude::*;

use crate::component::{in_arena, opposite, step, Direction};
use crate::game::Game;
use crate::model::{
    entry_of, frame_effect, frame_rest, head_at, head_direction, positions, steer_effect,
    tick_effect, GameModel,
};
use crate::input::steered;
use crate::world::live;

verus! {

/// While a game is running, the snake has a head and at least one more
/// segment.
pub proof fn running_snake_has_two_cells(g: &Game)
    requires
        g.wf(),
        g@.state is Running,
    ensures
        g@.segments.len() >= 2,
        positions(g@).len() >= 2,
{
}

/// While a game is running, every cell of the snake and every other live
/// entity lies inside the arena.
pub proof fn running_entities_in_arena(g: &Game)
    requires
        g.wf(),
        g@.state is Running,
    ensures
        forall|i: int| 0 <= i < positions(g@).len() ==> in_arena(#[trigger] positions(g@)[i]),
        forall|k: int| 0 <= k < g@.entities.len() && (#[trigger] g@.entities[k]) is Some
            ==> in_arena(g@.entities[k]->0.pos),
{
    let m = g@;
    assert forall|i: int| 0 <= i < positions(m).len() implies in_arena(#[trigger] positions(m)[i]) by {
        assert(live(m.entities, m.segments[i]));
        assert(m.entities[m.segments[i].index as int] is Some);
    }
}

/// A move that neither grows the snake nor ends the game keeps its length,
/// puts the head one step on in its direction, and moves every other
/// segment into the cell of the one before it.
pub proof fn tick_without_growth_shifts(a: GameModel, b: GameModel)
    requires
        a.wf(),
        a.state is Running,
        tick_effect(a, b, false),
        b.segments.len() == a.segments.len(),
    ensures
        positions(b).len() == positions(a).len(),
        positions(b)[0] == step(positions(a)[0], head_direction(a)),
        forall|i: int| 1 <= i < positions(b).len() ==> #[trigger] positions(b)[i] == positions(a)[i - 1],
{
}

/// The head never turns to the opposite of the direction it travels in.
pub proof fn reversal_never_accepted(current: Direction, wanted: Direction)
    ensures
        steered(current, wanted) != opposite(current),
{
}

/// While a game is running, the score is the number of segments grown
/// since the run began: the snake's length less its starting two.
pub proof fn running_score_counts_growth(g: &Game)
    requires
        g.wf(),
        g@.state is Running,
    ensures
        g@.score + 2 == g@.segments.len(),
{
}

/// A move never lowers the score; when the game goes on, the score rises
/// by exactly the number of segments grown, at most one.
pub proof fn tick_score_monotone(a: GameModel, b: GameModel, game_over: bool)
    requires
        a.wf(),
        a.state is Running,
        tick_effect(a, b, game_over),
    ensures
        a.score <= b.score <= a.score + 1,
        !game_over ==> b.score - a.score == b.segments.len() - a.segments.len(),
{
}

/// A frame of play never lowers the score, and raises it by at most one.
pub proof fn frame_score_monotone(a: GameModel, b: GameModel, keys: crate::input::Keys, delta_ms: u64, game_over: bool)
    requires
        a.wf(),
        a.state is Running,
        frame_effect(a, b, keys, delta_ms, game_over),
    ensures
        a.score <= b.score <= a.score + 1,
{
    let fired = a.move_timer.fires(delta_ms);
    let timed = GameModel { move_timer: a.move_timer.ticked(delta_ms), ..a };
    let (s, t) = choose|s: GameModel, t: GameModel|
        #[trigger] steer_effect(timed, s, keys) && #[trigger] frame_rest(s, t, b, fired, delta_ms, game_over);
    assert(s.score == a.score);
    assert(a.score <= t.score <= a.score + 1);
    if !game_over {
        assert(b.score == t.score);
    }
}

/// A move that ends the game leaves no live entity: no food, no segment
/// and no head.
pub proof fn game_over_clears_arena(a: GameModel, b: GameModel)
    requires
        a.wf(),
        a.state is Running,
        tick_effect(a, b, true),
    ensures
        b.state is GameOver,
        forall|k: int| 0 <= k < b.entities.len() ==> #[trigger] b.entities[k] is None,
{
}

/// While a game is running, exactly one live entity is a head.
pub proof fn running_game_has_one_head(g: &Game)
    requires
        g.wf(),
        g@.state is Running,
    ensures
        exists|k: int| #[trigger] head_at(g@, k),
        forall|j: int, k: int| head_at(g@, j) && head_at(g@, k) ==> j == k,
{
    let m = g@;
    assert(live(m.entities, m.segments[0]));
    assert(entry_of(m, m.segments[0]).kind is Head);
    assert(head_at(m, m.segments[0].index as int));
}

} // verus!
