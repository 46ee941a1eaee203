use vstd::prelude::*;

use crate::component::{Food, Position, SnakeHead, SnakeSegment};

verus! {

/// Handle of an entity in a [`World`]: the index of its slot.
#[derive(Debug, Clone, Copy, PartialEq, Eq, Structural)]
pub struct Entity {
    pub index: usize,
}

/// What an entity is: its marker, with the marker's own state.
#[derive(Debug, Clone, Copy, PartialEq, Eq, Structural)]
pub enum Kind {
    Head(SnakeHead),
    Segment(SnakeSegment),
    Food(Food),
}

/// A live entity: its kind and the cell it occupies.
#[derive(Debug, Clone, Copy, PartialEq, Eq, Structural)]
pub struct Entry {
    pub kind: Kind,
    pub pos: Position,
}

/// A handle-based entity store. Each spawn takes a fresh slot; a despawned
/// slot stays empty, so a handle never comes to name another entity.
pub struct World {
    slots: Vec<Option<Entry>>,
}

impl View for World {
    type V = Seq<Option<Entry>>;

    closed spec fn view(&self) -> Seq<Option<Entry>> {
        self.slots@
    }
}

/// True when `e` names a live entity of `w`.
pub open spec fn live(w: Seq<Option<Entry>>, e: Entity) -> bool {
    e.index < w.len() && w[e.index as int] is Some
}

impl World {
    /// An empty store.
    pub fn new() -> (w: World)
        ensures
            w@ == Seq::<Option<Entry>>::empty(),
    {
        World { slots: Vec::new() }
    }

    /// Number of slots ever handed out.
    pub fn slot_count(&self) -> (r: usize)
        ensures
            r == self@.len(),
    {
        self.slots.len()
    }

    /// Adds an entity in a fresh slot and returns its handle.
    pub fn spawn(&mut self, entry: Entry) -> (e: Entity)
        ensures
            final(self)@ == old(self)@.push(Some(entry)),
            e.index == old(self)@.len(),
    {
        let e = Entity { index: self.slots.len() };
        self.slots.push(Some(entry));
        e
    }

    /// Removes the entity `e`, if it is live.
    pub fn despawn(&mut self, e: Entity)
        ensures
            final(self)@ == if e.index < old(self)@.len() {
                old(self)@.update(e.index as int, None)
            } else {
                old(self)@
            },
    {
        if e.index < self.slots.len() {
            self.slots.set(e.index, None);
        }
    }

    /// The entity `e`, or `None` when it is not live.
    pub fn get(&self, e: Entity) -> (r: Option<Entry>)
        ensures
            r == if e.index < self@.len() {
                self@[e.index as int]
            } else {
                None
            },
    {
        if e.index < self.slots.len() {
            self.slots[e.index]
        } else {
            None
        }
    }

    /// Replaces the live entity `e`.
    pub fn set(&mut self, e: Entity, entry: Entry)
        requires
            live(old(self)@, e),
        ensures
            final(self)@ == old(self)@.update(e.index as int, Some(entry)),
    {
        self.slots.set(e.index, Some(entry));
    }

    /// Moves the live entity `e` to `pos`, keeping its kind.
    pub fn set_position(&mut self, e: Entity, pos: Position)
        requires
            live(old(self)@, e),
        ensures
            final(self)@ == old(self)@.update(
                e.index as int,
                Some(Entry { kind: old(self)@[e.index as int]->0.kind, pos }),
            ),
    {
        let old_entry = self.slots[e.index];
        match old_entry {
            Some(entry) => {
                self.slots.set(e.index, Some(Entry { kind: entry.kind, pos }));
            },
            None => {},
        }
    }
}

} // verus!
