use vstd::prelude::*;

verus! {

/// An integer coordinate on the grid, or a pixel position in the layout.
#[derive(Clone, Copy, Debug, PartialEq, Eq, Structural)]
pub struct Point {
    pub x: i32,
    pub y: i32,
}

/// Whether `v` lies in the range of `i32`.
pub open spec fn fits_i32(v: int) -> bool {
    i32::MIN <= v <= i32::MAX
}

impl Point {
    pub fn new(x: i32, y: i32) -> (r: Point)
        ensures
            r.x == x,
            r.y == y,
    {
        Point { x, y }
    }

    pub open spec fn origin_spec() -> Point {
        Point { x: 0, y: 0 }
    }

    #[verifier::when_used_as_spec(origin_spec)]
    pub fn origin() -> (r: Point)
        ensures
            r == Point::origin_spec(),
    {
        Point::new(0, 0)
    }

    /// Component-wise sum.
    pub fn add(self, rhs: Point) -> (r: Point)
        requires
            fits_i32(self.x + rhs.x),
            fits_i32(self.y + rhs.y),
        ensures
            r.x == self.x + rhs.x,
            r.y == self.y + rhs.y,
    {
        Point { x: self.x + rhs.x, y: self.y + rhs.y }
    }

    /// Component-wise negation.
    pub fn neg(self) -> (r: Point)
        requires
            self.x != i32::MIN,
            self.y != i32::MIN,
        ensures
            r.x == -self.x,
            r.y == -self.y,
    {
        Point { x: -self.x, y: -self.y }
    }

    /// Component-wise difference, as the sum with the negated right side.
    pub fn sub(self, rhs: Point) -> (r: Point)
        requires
            rhs.x != i32::MIN,
            rhs.y != i32::MIN,
            fits_i32(self.x - rhs.x),
            fits_i32(self.y - rhs.y),
        ensures
            r.x == self.x - rhs.x,
            r.y == self.y - rhs.y,
    {
        self.add(rhs.neg())
    }
}

/// The direction in which the snake moves.
#[derive(Clone, Copy, Debug, PartialEq, Eq, Structural)]
pub enum SnakeDirection {
    Up,
    Right,
    Down,
    Left,
}

/// The direction that points the other way.
pub open spec fn opposite(d: SnakeDirection) -> SnakeDirection {
    match d {
        SnakeDirection::Up => SnakeDirection::Down,
        SnakeDirection::Right => SnakeDirection::Left,
        SnakeDirection::Down => SnakeDirection::Up,
        SnakeDirection::Left => SnakeDirection::Right,
    }
}

/// The column change of one step in `d` (screen convention: y grows downwards).
pub open spec fn delta_x(d: SnakeDirection) -> int {
    match d {
        SnakeDirection::Right => 1,
        SnakeDirection::Left => -1,
        _ => 0,
    }
}

/// The row change of one step in `d`.
pub open spec fn delta_y(d: SnakeDirection) -> int {
    match d {
        SnakeDirection::Down => 1,
        SnakeDirection::Up => -1,
        _ => 0,
    }
}

impl SnakeDirection {
    /// The unit step of this direction as a point.
    pub fn offset(self) -> (r: Point)
        ensures
            r.x == delta_x(self),
            r.y == delta_y(self),
    {
        match self {
            SnakeDirection::Up => Point::new(0, -1),
            SnakeDirection::Right => Point::new(1, 0),
            SnakeDirection::Down => Point::new(0, 1),
            SnakeDirection::Left => Point::new(-1, 0),
        }
    }

    pub fn is_opposite_of(self, other: SnakeDirection) -> (r: bool)
        ensures
            r == (other == opposite(self)),
    {
        match self {
            SnakeDirection::Up => other == SnakeDirection::Down,
            SnakeDirection::Right => other == SnakeDirection::Left,
            SnakeDirection::Down => other == SnakeDirection::Up,
            SnakeDirection::Left => other == SnakeDirection::Right,
        }
    }
}

} // verus!
