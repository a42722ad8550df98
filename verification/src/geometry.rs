//! Board coordinates, movement directions and the keys that steer them.

use vstd::prelude::*;

verus! {

/// Smallest playable board width (columns, border included).
pub const MIN_GAME_WIDTH: i16 = 20;

/// Smallest playable board height (rows, border included).
pub const MIN_GAME_HEIGHT: i16 = 10;

/// A cell of the board; (0, 0) is the top-left corner, `x` grows to the
/// right and `y` grows downwards.
#[derive(Clone, Copy, PartialEq, Eq, Debug, Structural)]
pub struct Position {
    pub x: i16,
    pub y: i16,
}

/// One of the four directions a snake can travel in.
#[derive(Clone, Copy, PartialEq, Eq, Debug, Structural)]
pub enum Direction {
    Up,
    Down,
    Left,
    Right,
}

/// A key as far as the game reads it.
#[derive(Clone, Copy, PartialEq, Eq, Debug, Structural)]
pub enum Key {
    Up,
    Down,
    Left,
    Right,
    Char(char),
    Other,
}

/// The direction that reverses `d`.
pub open spec fn opposite(d: Direction) -> Direction {
    match d {
        Direction::Up => Direction::Down,
        Direction::Down => Direction::Up,
        Direction::Left => Direction::Right,
        Direction::Right => Direction::Left,
    }
}

/// The cell next to `p` in direction `d`.
pub open spec fn neighbor(p: Position, d: Direction) -> Position {
    match d {
        Direction::Up => Position { x: p.x, y: (p.y - 1) as i16 },
        Direction::Down => Position { x: p.x, y: (p.y + 1) as i16 },
        Direction::Left => Position { x: (p.x - 1) as i16, y: p.y },
        Direction::Right => Position { x: (p.x + 1) as i16, y: p.y },
    }
}

/// `p` lies strictly inside the border of a `width` x `height` board: the
/// border occupies columns 0 and `width - 1` and rows 0 and `height - 1`.
pub open spec fn inside(p: Position, width: int, height: int) -> bool {
    0 < p.x < width - 1 && 0 < p.y < height - 1
}

/// Every cell of `cells` lies inside the border.
pub open spec fn all_inside(cells: Seq<Position>, width: int, height: int) -> bool {
    forall|i: int| 0 <= i < cells.len() ==> inside(#[trigger] cells[i], width, height)
}

/// The direction that key `k` steers to: the arrow keys and W, A, S, D in
/// either case.
pub open spec fn key_direction(k: Key) -> Option<Direction> {
    match k {
        Key::Up => Some(Direction::Up),
        Key::Down => Some(Direction::Down),
        Key::Left => Some(Direction::Left),
        Key::Right => Some(Direction::Right),
        Key::Char(c) => if c == 'w' || c == 'W' {
            Some(Direction::Up)
        } else if c == 's' || c == 'S' {
            Some(Direction::Down)
        } else if c == 'a' || c == 'A' {
            Some(Direction::Left)
        } else if c == 'd' || c == 'D' {
            Some(Direction::Right)
        } else {
            None
        },
        Key::Other => None,
    }
}

impl Direction {
    /// Whether `other` is the reverse of `self` (a 180 degree turn).
    pub fn is_opposite(self, other: Direction) -> (r: bool)
        ensures
            r == (other == opposite(self)),
    {
        match (self, other) {
            (Direction::Up, Direction::Down) => true,
            (Direction::Down, Direction::Up) => true,
            (Direction::Left, Direction::Right) => true,
            (Direction::Right, Direction::Left) => true,
            _ => false,
        }
    }

    /// The direction a key steers to, if any.
    pub fn from_key(key: Key) -> (r: Option<Direction>)
        ensures
            r == key_direction(key),
    {
        match key {
            Key::Up => Some(Direction::Up),
            Key::Down => Some(Direction::Down),
            Key::Left => Some(Direction::Left),
            Key::Right => Some(Direction::Right),
            Key::Char(c) => {
                if c == 'w' || c == 'W' {
                    Some(Direction::Up)
                } else if c == 's' || c == 'S' {
                    Some(Direction::Down)
                } else if c == 'a' || c == 'A' {
                    Some(Direction::Left)
                } else if c == 'd' || c == 'D' {
                    Some(Direction::Right)
                } else {
                    None
                }
            },
            Key::Other => None,
        }
    }
}

impl Position {
    /// The neighbouring cell in direction `d`.
    pub fn moved(self, d: Direction) -> (r: Position)
        requires
            i16::MIN < self.x < i16::MAX,
            i16::MIN < self.y < i16::MAX,
        ensures
            r == neighbor(self, d),
    {
        match d {
            Direction::Up => Position { x: self.x, y: self.y - 1 },
            Direction::Down => Position { x: self.x, y: self.y + 1 },
            Direction::Left => Position { x: self.x - 1, y: self.y },
            Direction::Right => Position { x: self.x + 1, y: self.y },
        }
    }

    /// Whether the cell lies strictly inside the border of the board.
    pub fn is_inside(self, width: i16, height: i16) -> (r: bool)
        ensures
            r == inside(self, width as int, height as int),
    {
        self.x > 0 && (self.x as i32) < (width as i32) - 1 && self.y > 0 && (self.y as i32) < (
        height as i32) - 1
    }
}

/// Each direction has exactly one opposite, reversing twice returns to the
/// start, and no direction is its own opposite.
pub proof fn law_opposite_involution(d: Direction, e: Direction)
    ensures
        opposite(opposite(d)) == d,
        opposite(d) != d,
        (e == opposite(d)) == (d == opposite(e)),
{
}

/// Moving one cell and then one cell back in the opposite direction returns
/// to the starting cell.
pub proof fn law_step_back(p: Position, d: Direction)
    requires
        i16::MIN < p.x < i16::MAX,
        i16::MIN < p.y < i16::MAX,
    ensures
        neighbor(neighbor(p, d), opposite(d)) == p,
        neighbor(p, d) != p,
{
}

} // verus!

verus! {

/// The direction with index `i` in the order Up, Down, Left, Right.
pub open spec fn direction_at(i: int) -> Direction {
    if i == 0 {
        Direction::Up
    } else if i == 1 {
        Direction::Down
    } else if i == 2 {
        Direction::Left
    } else {
        Direction::Right
    }
}

impl Direction {
    /// The direction with index `i` in the order Up, Down, Left, Right.
    pub fn at(i: u8) -> (r: Direction)
        requires
            i < 4,
        ensures
            r == direction_at(i as int),
    {
        if i == 0 {
            Direction::Up
        } else if i == 1 {
            Direction::Down
        } else if i == 2 {
            Direction::Left
        } else {
            Direction::Right
        }
    }
}

/// Whether `p` is one of `cells`.
pub fn contains_cell(cells: &[Position], p: Position) -> (r: bool)
    ensures
        r == cells@.contains(p),
{
    let mut i: usize = 0;
    while i < cells.len()
        invariant
            0 <= i <= cells@.len(),
            forall|j: int| 0 <= j < i ==> cells@[j] != p,
        decreases cells@.len() - i,
    {
        if cells[i] == p {
            assert(cells@[i as int] == p);
            return true;
        }
        i += 1;
    }
    false
}

} // verus!
