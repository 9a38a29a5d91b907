use vstd::prelude::*;

verus! {

/// A cell coordinate: `x` is the column, `y` the row, with the origin at the
/// top left and `y` growing downward.
#[derive(Clone, Copy, Debug, PartialEq, Eq, Structural)]
pub struct Point {
    pub x: i32,
    pub y: i32,
}

/// One of the four orthogonal movement intents.
#[derive(Clone, Copy, Debug, PartialEq, Eq, Structural)]
pub enum SnakeDirection {
    Up,
    Down,
    Left,
    Right,
}

/// The unit vector of a direction.
pub open spec fn offset_of(d: SnakeDirection) -> (int, int) {
    match d {
        SnakeDirection::Up => (0, -1),
        SnakeDirection::Down => (0, 1),
        SnakeDirection::Left => (-1, 0),
        SnakeDirection::Right => (1, 0),
    }
}

/// `p` moved one unit in direction `d`, over unbounded integers.
pub open spec fn step_spec(p: Point, d: SnakeDirection) -> (int, int) {
    (p.x + offset_of(d).0, p.y + offset_of(d).1)
}

/// Whether `p` can be moved one unit in any direction without leaving `i32`.
pub open spec fn steppable(p: Point) -> bool {
    i32::MIN < p.x < i32::MAX && i32::MIN < p.y < i32::MAX
}

/// Whether `a` and `b` differ by exactly one unit offset.
pub open spec fn adjacent(a: Point, b: Point) -> bool {
    ||| a.x == b.x && (a.y - b.y == 1 || b.y - a.y == 1)
    ||| a.y == b.y && (a.x - b.x == 1 || b.x - a.x == 1)
}

impl Point {
    pub fn new(x: i32, y: i32) -> (r: Point)
        ensures
            r.x == x,
            r.y == y,
    {
        Point { x, y }
    }

    /// Component-wise sum of two points.
    pub fn shifted(self, d: Point) -> (r: Point)
        requires
            i32::MIN <= self.x + d.x <= i32::MAX,
            i32::MIN <= self.y + d.y <= i32::MAX,
        ensures
            r.x == self.x + d.x,
            r.y == self.y + d.y,
    {
        Point::new(self.x + d.x, self.y + d.y)
    }

    /// This point moved one unit in direction `d`.
    pub fn step(self, d: SnakeDirection) -> (r: Point)
        requires
            steppable(self),
        ensures
            (r.x as int, r.y as int) == step_spec(self, d),
            adjacent(self, r),
    {
        let r = self.shifted(d.offset());
        assert(step_spec(self, d) == (r.x as int, r.y as int));
        r
    }
}

impl SnakeDirection {
    /// The unit vector of this direction.
    pub fn offset(self) -> (r: Point)
        ensures
            (r.x as int, r.y as int) == offset_of(self),
    {
        match self {
            SnakeDirection::Up => Point::new(0, -1),
            SnakeDirection::Down => Point::new(0, 1),
            SnakeDirection::Left => Point::new(-1, 0),
            SnakeDirection::Right => Point::new(1, 0),
        }
    }
}

} // verus!
