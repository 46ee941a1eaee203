use vstd::prelude::*;
use vstd::arithmetic::div_mod::lemma_mod_add_multiples_vanish;

use crate::component::Position;
use crate::world::Entity;

verus! {

/// Period of the snake's move timer, in milliseconds.
pub const MOVE_PERIOD_MS: u64 = 500;

/// Period of the food spawner's timer, in milliseconds.
pub const FOOD_PERIOD_MS: u64 = 5000;

/// A repeating timer over whole milliseconds. It fires on each tick that
/// brings the time gathered since it last fired to its period or beyond;
/// what lies beyond a whole number of periods is carried over.
#[derive(Debug, Clone, Copy)]
pub struct Timer {
    pub period_ms: u64,
    pub elapsed_ms: u64,
    pub finished: bool,
}

impl Timer {
    /// A period is set and the time gathered stays below it.
    pub open spec fn wf(&self) -> bool {
        0 < self.elapsed_ms + 1 <= self.period_ms
    }

    /// Whether ticking by `delta_ms` makes the timer fire.
    pub open spec fn fires(&self, delta_ms: u64) -> bool {
        self.elapsed_ms + delta_ms >= self.period_ms
    }

    /// The timer after ticking by `delta_ms`.
    pub open spec fn ticked(&self, delta_ms: u64) -> Timer {
        Timer {
            period_ms: self.period_ms,
            elapsed_ms: ((self.elapsed_ms + delta_ms) % (self.period_ms as int)) as u64,
            finished: self.fires(delta_ms),
        }
    }

    /// A timer of the given period that has gathered no time.
    pub fn new(period_ms: u64) -> (t: Timer)
        requires
            period_ms > 0,
        ensures
            t.wf(),
            t.period_ms == period_ms,
            t.elapsed_ms == 0,
            !t.finished,
    {
        Timer { period_ms, elapsed_ms: 0, finished: false }
    }

    /// Advances the timer by `delta_ms` and says whether it fired.
    pub fn tick(&mut self, delta_ms: u64) -> (fired: bool)
        requires
            old(self).wf(),
        ensures
            final(self).wf(),
            *final(self) == old(self).ticked(delta_ms),
            final(self).period_ms == old(self).period_ms,
            fired == old(self).fires(delta_ms),
            final(self).finished == fired,
            final(self).elapsed_ms == (old(self).elapsed_ms + delta_ms) % (old(self).period_ms as int),
    {
        let room = self.period_ms - self.elapsed_ms;
        if delta_ms >= room {
            let rest = delta_ms - room;
            proof {
                lemma_mod_add_multiples_vanish(rest as int, self.period_ms as int);
            }
            self.elapsed_ms = rest % self.period_ms;
            self.finished = true;
            true
        } else {
            proof {
                vstd::arithmetic::div_mod::lemma_small_mod(
                    (self.elapsed_ms + delta_ms) as nat,
                    self.period_ms as nat,
                );
            }
            self.elapsed_ms = self.elapsed_ms + delta_ms;
            self.finished = false;
            false
        }
    }

    /// Whether the last tick made the timer fire.
    pub fn finished(&self) -> (r: bool)
        ensures
            r == self.finished,
    {
        self.finished
    }
}

/// The timer that paces the snake: one move per firing.
#[derive(Debug, Clone, Copy)]
pub struct SnakeMoveTimer(pub Timer);

impl Default for SnakeMoveTimer {
    /// A fresh timer of period [`MOVE_PERIOD_MS`].
    fn default() -> (r: SnakeMoveTimer)
        ensures
            r.0.wf(),
            r.0.period_ms == MOVE_PERIOD_MS,
            r.0.elapsed_ms == 0,
            !r.0.finished,
    {
        SnakeMoveTimer(Timer::new(MOVE_PERIOD_MS))
    }
}

/// The timer that paces the food spawner: one food per firing.
#[derive(Debug, Clone, Copy)]
pub struct FoodSpawnTimer(pub Timer);

impl Default for FoodSpawnTimer {
    /// A fresh timer of period [`FOOD_PERIOD_MS`].
    fn default() -> (r: FoodSpawnTimer)
        ensures
            r.0.wf(),
            r.0.period_ms == FOOD_PERIOD_MS,
            r.0.elapsed_ms == 0,
            !r.0.finished,
    {
        FoodSpawnTimer(Timer::new(FOOD_PERIOD_MS))
    }
}

/// The snake's entities in order: index 0 is the head, the last the tail.
#[derive(Debug)]
pub struct SnakeSegments(pub Vec<Entity>);

/// The cell the tail occupied before the latest move, if there was one.
#[derive(Debug, Clone, Copy)]
pub struct LastTailPosition(pub Option<Position>);

} // verus!
