use vstd::prelude::*;

verus! {

/// Width of the arena, in cells.
pub const ARENA_WIDTH: u32 = 10;

/// Height of the arena, in cells.
pub const ARENA_HEIGHT: u32 = 10;

/// A cell of the arena grid.
#[derive(Debug, Clone, Copy, PartialEq, Eq, Structural)]
pub struct Position {
    pub x: i32,
    pub y: i32,
}

/// True when `p` lies inside `[0, ARENA_WIDTH) x [0, ARENA_HEIGHT)`.
pub open spec fn in_arena(p: Position) -> bool {
    &&& 0 <= p.x < ARENA_WIDTH as int
    &&& 0 <= p.y < ARENA_HEIGHT as int
}

impl Position {
    /// Whether this cell lies inside the arena.
    pub fn in_arena(&self) -> (r: bool)
        ensures
            r == in_arena(*self),
    {
        self.x >= 0 && self.x < ARENA_WIDTH as i32 && self.y >= 0 && self.y < ARENA_HEIGHT as i32
    }

    /// The neighbouring cell one step in direction `d`.
    pub fn step(&self, d: Direction) -> (r: Position)
        requires
            i32::MIN < self.x < i32::MAX,
            i32::MIN < self.y < i32::MAX,
        ensures
            r == step(*self, d),
    {
        match d {
            Direction::North => Position { x: self.x, y: self.y + 1 },
            Direction::South => Position { x: self.x, y: self.y - 1 },
            Direction::West => Position { x: self.x - 1, y: self.y },
            Direction::East => Position { x: self.x + 1, y: self.y },
        }
    }
}

/// One of the four grid directions. North and East increase `y` and `x`.
#[derive(Debug, Clone, Copy, PartialEq, Eq, Structural)]
pub enum Direction {
    North,
    South,
    West,
    East,
}

/// The direction pointing the other way.
pub open spec fn opposite(d: Direction) -> Direction {
    match d {
        Direction::North => Direction::South,
        Direction::South => Direction::North,
        Direction::West => Direction::East,
        Direction::East => Direction::West,
    }
}

/// Change of `x` for one step in direction `d`.
pub open spec fn dx(d: Direction) -> int {
    match d {
        Direction::West => -1,
        Direction::East => 1,
        _ => 0,
    }
}

/// Change of `y` for one step in direction `d`.
pub open spec fn dy(d: Direction) -> int {
    match d {
        Direction::North => 1,
        Direction::South => -1,
        _ => 0,
    }
}

/// The cell one step away from `p` in direction `d`.
pub open spec fn step(p: Position, d: Direction) -> Position {
    Position { x: (p.x + dx(d)) as i32, y: (p.y + dy(d)) as i32 }
}

impl Direction {
    /// The direction pointing the other way.
    pub fn opposite(self) -> (r: Direction)
        ensures
            r == opposite(self),
            r != self,
            opposite(r) == self,
    {
        match self {
            Direction::North => Direction::South,
            Direction::South => Direction::North,
            Direction::West => Direction::East,
            Direction::East => Direction::West,
        }
    }
}

/// Marker and state of the snake's head: the direction it travels in.
#[derive(Debug, Clone, Copy, PartialEq, Eq, Structural)]
pub struct SnakeHead {
    pub direction: Direction,
}

impl Default for SnakeHead {
    /// A head that travels north.
    fn default() -> (r: SnakeHead)
        ensures
            r.direction == Direction::North,
    {
        SnakeHead { direction: Direction::North }
    }
}

/// Marker of a body segment of the snake (the head excluded).
#[derive(Debug, Clone, Copy, PartialEq, Eq, Structural)]
pub struct SnakeSegment;

/// Marker of a piece of food.
#[derive(Debug, Clone, Copy, PartialEq, Eq, Structural)]
pub struct Food;

} // verus!
