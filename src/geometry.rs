use vstd::prelude::*;

verus! {

/// Absolute value of an integer.
pub open spec fn abs_int(v: int) -> int {
    if v < 0 {
        -v
    } else {
        v
    }
}

/// A position, defined by a tuple of x and y coordinates.
#[derive(Clone, Copy, Debug, PartialEq, Eq, PartialOrd, Ord)]
pub struct Position {
    pub x: i32,
    pub y: i32,
}

impl From<(i32, i32)> for Position {
    fn from(xy: (i32, i32)) -> (r: Position) {
        Position { x: xy.0, y: xy.1 }
    }
}

impl vstd::std_specs::convert::FromSpecImpl<(i32, i32)> for Position {
    open spec fn obeys_from_spec() -> bool {
        true
    }

    open spec fn from_spec(xy: (i32, i32)) -> Position {
        Position { x: xy.0, y: xy.1 }
    }
}

impl Position {
    /// Builds the position `(x, y)`.
    pub fn new(x: i32, y: i32) -> (r: Position)
        ensures
            r.x == x,
            r.y == y,
    {
        Position { x, y }
    }

    /// The Manhattan distance between two positions.
    pub open spec fn manhattan(self, other: Position) -> int {
        abs_int(self.x - other.x) + abs_int(self.y - other.y)
    }

    /// The x coordinate of this position.
    pub fn x(&self) -> (r: i32)
        ensures
            r == self.x,
    {
        self.x
    }

    /// The y coordinate of this position.
    pub fn y(&self) -> (r: i32)
        ensures
            r == self.y,
    {
        self.y
    }

    /// Translates this position by an offset.
    pub fn translated_by_offset(&self, x: i32, y: i32) -> (r: Position)
        requires
            i32::MIN <= self.x + x <= i32::MAX,
            i32::MIN <= self.y + y <= i32::MAX,
        ensures
            r.x == self.x + x,
            r.y == self.y + y,
    {
        Position { x: self.x + x, y: self.y + y }
    }

    /// Translates this position by one step in the given direction.
    pub fn translated_by_direction(&self, direction: &Direction) -> (r: Position)
        requires
            self.can_step(*direction),
        ensures
            r == self.stepped(*direction),
    {
        let offset = direction.as_position_offset();
        self.translated_by_offset(offset.0, offset.1)
    }

    /// Whether one step in `direction` stays within the coordinate range.
    pub open spec fn can_step(self, direction: Direction) -> bool {
        let (dx, dy) = direction.offset();
        &&& i32::MIN <= self.x + dx <= i32::MAX
        &&& i32::MIN <= self.y + dy <= i32::MAX
    }

    /// The position one step away in `direction`.
    pub open spec fn stepped(self, direction: Direction) -> Position {
        let (dx, dy) = direction.offset();
        Position { x: (self.x + dx) as i32, y: (self.y + dy) as i32 }
    }

    /// The distance between this position and another one: the Manhattan
    /// distance, computed without overflow.
    pub fn distance(&self, position: &Position) -> (r: u64)
        ensures
            r as int == self.manhattan(*position),
    {
        let dx: i64 = self.x as i64 - position.x as i64;
        let dy: i64 = self.y as i64 - position.y as i64;
        let ax: u64 = if dx < 0 { (-dx) as u64 } else { dx as u64 };
        let ay: u64 = if dy < 0 { (-dy) as u64 } else { dy as u64 };
        ax + ay
    }
}

/// A direction.
#[derive(Clone, Copy, Debug, PartialEq, Eq)]
pub enum Direction {
    /// North (up)
    North,
    /// South (down)
    South,
    /// East (right)
    East,
    /// West (left)
    West,
}

impl Direction {
    /// The unit offset of this direction; y grows towards the south.
    pub open spec fn offset(self) -> (int, int) {
        match self {
            Direction::North => (0, -1),
            Direction::South => (0, 1),
            Direction::East => (1, 0),
            Direction::West => (-1, 0),
        }
    }

    /// The unit offset of this direction as a pair `(dx, dy)`.
    pub fn as_position_offset(&self) -> (r: (i32, i32))
        ensures
            r.0 == self.offset().0,
            r.1 == self.offset().1,
    {
        match self {
            Direction::North => (0, -1),
            Direction::South => (0, 1),
            Direction::East => (1, 0),
            Direction::West => (-1, 0),
        }
    }
}

} // verus!
